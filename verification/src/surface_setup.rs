use vstd::prelude::*;
use vstd::string::StringExecFns;

use crate::text::{decimal, decimal_text};

verus! {

/// Why a layer-shell surface cannot be set up on the compositor.
#[derive(Debug, Clone, Copy, PartialEq, Eq, Structural)]
pub enum SurfaceSetupError {
    /// The DMA-BUF global is older than version 2, which brought
    /// `create_immed`.
    DmabufTooOld { version: u32 },
    /// The compositor has no layer-shell global.
    LayerShellUnavailable,
}

impl SurfaceSetupError {
    pub fn message(&self) -> (message: String)
        ensures
            message@ == match *self {
                SurfaceSetupError::DmabufTooOld { version } => "zwp_linux_dmabuf_v1 version "@ + decimal(
                    version as nat,
                ) + " does not support create_immed"@,
                SurfaceSetupError::LayerShellUnavailable => "zwlr_layer_shell_v1 unavailable"@,
            },
    {
        match *self {
            SurfaceSetupError::DmabufTooOld { version } => "zwp_linux_dmabuf_v1 version ".to_string().concat(
                decimal_text(version as u64).as_str(),
            ).concat(" does not support create_immed"),
            SurfaceSetupError::LayerShellUnavailable => "zwlr_layer_shell_v1 unavailable".to_string(),
        }
    }
}

/// What to bind and request when the surface is set up.
#[derive(Debug, Clone, Copy, PartialEq, Eq, Structural)]
pub struct SurfacePlan {
    /// The version to bind the first output at, when there is an output.
    pub output_version: Option<u32>,
    /// Whether to ask for DMA-BUF feedback on the surface (version 4 on).
    pub surface_feedback: bool,
}

/// Decides how the wallpaper surface is set up, given the version of the
/// DMA-BUF global (when the compositor has one), of the first output (when
/// there is one), and whether it has a layer shell. A DMA-BUF global older
/// than version 2 is refused first; then a missing layer shell. Otherwise
/// the first output is bound at its version but at most 4, and surface
/// feedback is requested from DMA-BUF version 4 on.
pub fn plan_surface_setup(
    dmabuf_version: Option<u32>,
    first_output_version: Option<u32>,
    layer_shell_available: bool,
) -> (plan: Result<SurfacePlan, SurfaceSetupError>)
    ensures
        match dmabuf_version {
            Some(v) if v < 2 => plan == Err::<SurfacePlan, SurfaceSetupError>(SurfaceSetupError::DmabufTooOld { version: v }),
            _ => if !layer_shell_available {
                plan == Err::<SurfacePlan, SurfaceSetupError>(SurfaceSetupError::LayerShellUnavailable)
            } else {
                plan == Ok::<SurfacePlan, SurfaceSetupError>(SurfacePlan {
                    output_version: match first_output_version {
                        Some(v) => Some(if v < 4 { v } else { 4u32 }),
                        None => None,
                    },
                    surface_feedback: match dmabuf_version {
                        Some(v) => v >= 4,
                        None => false,
                    },
                })
            },
        },
{
    if let Some(version) = dmabuf_version {
        if version < 2 {
            return Err(SurfaceSetupError::DmabufTooOld { version });
        }
    }
    if !layer_shell_available {
        return Err(SurfaceSetupError::LayerShellUnavailable);
    }
    let output_version = match first_output_version {
        Some(v) => Some(if v < 4 { v } else { 4u32 }),
        None => None,
    };
    let surface_feedback = match dmabuf_version {
        Some(v) => v >= 4,
        None => false,
    };
    Ok(SurfacePlan { output_version, surface_feedback })
}

} // verus!
