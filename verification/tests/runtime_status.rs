use we_layerd::present::{FrameStats, PresentBackend};
use we_layerd::config::ScaleMode;
use we_layerd::runtime_status::{render_output_status, PresentationLayout, RendererDiagnosticsSummary, RuntimeDiagnostics};

fn diagnostics() -> RuntimeDiagnostics {
    RuntimeDiagnostics {
        wayland_connected: true,
        dmabuf_global_available: true,
        dmabuf_global_version: 4,
        dmabuf_formats_known: true,
        dmabuf_format_count: 12,
        shm_available: true,
        viewporter_available: false,
        fractional_scale_available: true,
        prefer_dmabuf_configured: true,
        prefer_dmabuf_effective: false,
        allow_shm_fallback: true,
        nvidia_prime_offload_detected: false,
        options_json_present: true,
        options_json_len: 17,
        options_json_valid: true,
        renderer_diagnostics: None,
        renderer_diagnostics_error: None,
    }
}

#[test]
fn runtime_table_lists_every_diagnostic_in_order() {
    assert_eq!(
        diagnostics().render_runtime_table(),
        "[runtime]\nwayland_connected = true\ndmabuf_global_available = true\ndmabuf_global_version = 4\n\
dmabuf_formats_known = true\ndmabuf_format_count = 12\nshm_available = true\nviewporter_available = false\n\
fractional_scale_available = true\nprefer_dmabuf_configured = true\nprefer_dmabuf_effective = false\n\
allow_shm_fallback = true\nnvidia_prime_offload_detected = false\noptions_json_present = true\n\
options_json_len = 17\noptions_json_valid = true\nrenderer_diagnostic_count = 0\nrenderer_warning_count = 0\n\
renderer_error_count = 0\nrenderer_diagnostics_json = \"\"\nrenderer_diagnostics_error = \"\""
    );
}

#[test]
fn runtime_table_counts_renderer_diagnostics_and_quotes_their_json() {
    let json = "{\"entries\":[{\"severity\":\"warning\"}]}".to_string();
    let mut d = diagnostics();
    d.renderer_diagnostics =
        Some(RendererDiagnosticsSummary { entries: 3, warnings: 2, errors: 1, json: Some(json.clone()) });
    d.renderer_diagnostics_error = Some("shader \"x\" failed".to_string());
    let table = d.render_runtime_table();
    let expected_tail = format!(
        "\nrenderer_diagnostic_count = 3\nrenderer_warning_count = 2\nrenderer_error_count = 1\n\
renderer_diagnostics_json = {}\nrenderer_diagnostics_error = {}",
        toml::Value::String(json),
        toml::Value::String("shader \"x\" failed".to_string())
    );
    assert!(table.ends_with(&expected_tail), "{table}");
    assert!(table.contains("renderer_diagnostics_json = '{\"entries\"") || table.contains("renderer_diagnostics_json = \"{\\\"entries"));
}

#[test]
fn unserialisable_renderer_diagnostics_show_empty_json() {
    let mut d = diagnostics();
    d.renderer_diagnostics = Some(RendererDiagnosticsSummary { entries: 1, warnings: 0, errors: 1, json: None });
    let table = d.render_runtime_table();
    assert!(table.contains("\nrenderer_diagnostic_count = 1\n"));
    assert!(table.contains("\nrenderer_diagnostics_json = \"\"\n"));
}

#[test]
fn frame_lines_of_a_fresh_surface() {
    assert_eq!(
        FrameStats::default().render_frame_lines(),
        "\nlast_present_backend = \"\"\nlast_frame_width = 0\nlast_frame_height = 0\nin_flight_buffers = 0\n\
acquired = 0\npresented = 0\nskipped_by_backpressure = 0\nno_frame_polls = 0\nreleased_buffers = 0\nlast_error = \"\""
    );
}

#[test]
fn frame_lines_show_backend_counters_and_quoted_error() {
    let stats = FrameStats {
        acquired: 10,
        presented: 9,
        skipped_by_backpressure: 1,
        no_frame_polls: 4,
        released_buffers: 8,
        in_flight_count: 2,
        last_present_backend: Some(PresentBackend::Dmabuf),
        last_frame_width: 1920,
        last_frame_height: 1080,
        last_error: Some("bad \"fd\"\n".to_string()),
    };
    assert_eq!(
        stats.render_frame_lines(),
        "\nlast_present_backend = \"dmabuf\"\nlast_frame_width = 1920\nlast_frame_height = 1080\n\
in_flight_buffers = 2\nacquired = 10\npresented = 9\nskipped_by_backpressure = 1\nno_frame_polls = 4\n\
released_buffers = 8\nlast_error = \"bad \\\"fd\\\"\\n\""
    );
}

fn layout() -> PresentationLayout {
    PresentationLayout {
        configured: true,
        logical_width: 1920,
        logical_height: 1080,
        render_width: 1920,
        render_height: 1080,
        output_mode_width: 3840,
        output_mode_height: 2160,
        output_scale: 2,
        scale_mode: ScaleMode::Cover,
        paused: false,
        viewport_width: 1920,
        viewport_height: 1080,
    }
}

#[test]
fn output_status_joins_runtime_presentation_and_frame_lines() {
    let scale = format!("{:.3}", 1.5_f64);
    let text = render_output_status(&diagnostics(), &layout(), &scale, None, &FrameStats::default());
    let expected = format!(
        "{}\n\n[presentation]\nconfigured = true\nlogical_width = 1920\nlogical_height = 1080\n\
render_width = 1920\nrender_height = 1080\noutput_mode_width = 3840\noutput_mode_height = 2160\n\
output_scale = 2\nfractional_scale = 1.500\nscale_mode = \"cover\"\npaused = false\n\
viewport_width = 1920\nviewport_height = 1080{}",
        diagnostics().render_runtime_table(),
        FrameStats::default().render_frame_lines()
    );
    assert_eq!(text, expected);
    assert!(text.contains("\n\n[presentation]\nconfigured = true\n"));
    assert!(text.ends_with("\nreleased_buffers = 0\nlast_error = \"\""));
}

#[test]
fn output_status_lists_the_viewport_source_when_there_is_one() {
    let mut p = layout();
    p.scale_mode = ScaleMode::Fit;
    let texts: Vec<String> = [0.0_f64, 60.0, 1920.0, 960.0].iter().map(|v| format!("{v:.3}")).collect();
    let text = render_output_status(
        &diagnostics(),
        &p,
        "1.000",
        Some((&texts[0], &texts[1], &texts[2], &texts[3])),
        &FrameStats::default(),
    );
    assert!(text.contains(
        "\nscale_mode = \"fit\"\npaused = false\nviewport_width = 1920\nviewport_height = 1080\n\
viewport_source_x = 0.000\nviewport_source_y = 60.000\nviewport_source_width = 1920.000\n\
viewport_source_height = 960.000\nlast_present_backend = \"\"\n"
    ));
}
