use we_layerd::surface_setup::{plan_surface_setup, SurfacePlan, SurfaceSetupError};

#[test]
fn old_dmabuf_globals_are_refused_before_anything_else() {
    let error = plan_surface_setup(Some(1), Some(4), false).expect_err("version 1");
    assert_eq!(error, SurfaceSetupError::DmabufTooOld { version: 1 });
    assert_eq!(error.message(), "zwp_linux_dmabuf_v1 version 1 does not support create_immed");
}

#[test]
fn a_missing_layer_shell_is_refused() {
    let error = plan_surface_setup(Some(3), Some(4), false).expect_err("no layer shell");
    assert_eq!(error, SurfaceSetupError::LayerShellUnavailable);
    assert_eq!(error.message(), "zwlr_layer_shell_v1 unavailable");
    assert_eq!(plan_surface_setup(None, None, false), Err(SurfaceSetupError::LayerShellUnavailable));
}

#[test]
fn outputs_bind_at_most_version_four_and_feedback_needs_dmabuf_four() {
    assert_eq!(
        plan_surface_setup(Some(4), Some(5), true),
        Ok(SurfacePlan { output_version: Some(4), surface_feedback: true })
    );
    assert_eq!(
        plan_surface_setup(Some(3), Some(2), true),
        Ok(SurfacePlan { output_version: Some(2), surface_feedback: false })
    );
    assert_eq!(plan_surface_setup(None, None, true), Ok(SurfacePlan { output_version: None, surface_feedback: false }));
}
