use vstd::prelude::*;

use crate::backend::BackendKind;
use vstd::string::StringSliceAdditionalSpecFns;

verus! {

/// The backend selected in the `[general]` table.
#[derive(Debug, Clone, Copy, PartialEq, Eq, Structural)]
pub enum Backend {
    LayerShell,
}

impl Default for Backend {
    fn default() -> (backend: Self)
        ensures
            backend == Backend::LayerShell,
    {
        Backend::LayerShell
    }
}

impl Backend {
    pub fn kind(self) -> (kind: BackendKind)
        ensures
            kind == BackendKind::LayerShell,
    {
        match self {
            Backend::LayerShell => BackendKind::LayerShell,
        }
    }
}

/// How the rendered frame is fitted to the output.
#[derive(Debug, Clone, Copy, PartialEq, Eq, Structural)]
pub enum ScaleMode {
    Fit,
    Cover,
    Stretch,
}

impl Default for ScaleMode {
    fn default() -> (mode: Self)
        ensures
            mode == ScaleMode::Cover,
    {
        ScaleMode::Cover
    }
}

pub open spec fn scale_mode_text(mode: ScaleMode) -> Seq<char> {
    match mode {
        ScaleMode::Fit => "fit"@,
        ScaleMode::Cover => "cover"@,
        ScaleMode::Stretch => "stretch"@,
    }
}

/// Different scale modes are shown under different names.
pub proof fn lemma_scale_mode_names_differ(a: ScaleMode, b: ScaleMode)
    ensures
        a != b ==> scale_mode_text(a) != scale_mode_text(b),
{
    reveal_strlit("fit");
    reveal_strlit("cover");
    reveal_strlit("stretch");
    if a != b {
        assert(scale_mode_text(a)[0] != scale_mode_text(b)[0]);
    }
}

/// The name of a scale mode in status output.
pub fn scale_mode_name(scale_mode: ScaleMode) -> (name: &'static str)
    ensures
        name@ == scale_mode_text(scale_mode),
{
    match scale_mode {
        ScaleMode::Fit => "fit",
        ScaleMode::Cover => "cover",
        ScaleMode::Stretch => "stretch",
    }
}

/// The `[general]` table of the configuration.
#[derive(Debug, Clone, Copy, PartialEq, Eq, Structural)]
pub struct GeneralConfig {
    pub backend: Backend,
    pub interactive: bool,
    pub show_fps: bool,
    pub fps_report_interval_secs: u64,
    pub scale_mode: ScaleMode,
}

pub fn default_interactive() -> (interactive: bool)
    ensures
        interactive,
{
    true
}

pub fn default_fps_report_interval_secs() -> (secs: u64)
    ensures
        secs == 1,
{
    1
}

pub fn default_renderer_library_path() -> (path: String)
    ensures
        path@ == Seq::<char>::empty(),
{
    String::new()
}

pub fn default_renderer_cache_path() -> (path: String)
    ensures
        path@ == "~/.cache/we-layerd/renderer"@,
{
    "~/.cache/we-layerd/renderer".to_string()
}

pub fn default_prefer_dmabuf() -> (prefer: bool)
    ensures
        prefer,
{
    true
}

pub fn default_allow_shm_fallback() -> (allow: bool)
    ensures
        allow,
{
    true
}

pub fn default_renderer_fps() -> (fps: u32)
    ensures
        fps == 60,
{
    60
}

impl Default for GeneralConfig {
    fn default() -> (config: Self)
        ensures
            config == (GeneralConfig {
                backend: Backend::LayerShell,
                interactive: true,
                show_fps: false,
                fps_report_interval_secs: 1,
                scale_mode: ScaleMode::Cover,
            }),
    {
        GeneralConfig {
            backend: Backend::default(),
            interactive: default_interactive(),
            show_fps: false,
            fps_report_interval_secs: default_fps_report_interval_secs(),
            scale_mode: ScaleMode::default(),
        }
    }
}

/// Whether `text` is a JSON document that serde_json accepts.
pub uninterp spec fn is_valid_json(text: Seq<char>) -> bool;

/// Parses `raw` with `serde_json::from_str::<serde_json::Value>` and reports
/// whether that succeeded. Whether a text is JSON depends on the text alone.
#[verifier::external_body]
fn json_is_valid(raw: &str) -> (valid: bool)
    ensures
        valid == is_valid_json(raw@),
{
    serde_json::from_str::<serde_json::Value>(raw).is_ok()
}

/// Why the renderer options were refused.
#[derive(Debug, Clone, Copy, PartialEq, Eq, Structural)]
pub enum OptionsJsonError {
    /// `renderer.options_json` is set but is not valid JSON.
    InvalidJson,
}

impl OptionsJsonError {
    /// The report for the error.
    pub fn message(&self) -> (message: &'static str)
        ensures
            message@ == "renderer.options_json must be valid JSON"@,
    {
        "renderer.options_json must be valid JSON"
    }
}

/// Presence, byte length and validity of `renderer.options_json`, given
/// whether the value parsed as JSON; an absent value counts as valid.
pub fn options_json_report(options_json: Option<&str>, parsed: bool) -> (diagnostics: (bool, usize, bool))
    ensures
        match options_json {
            Some(raw) => diagnostics == (true, raw.spec_bytes().len() as usize, parsed),
            None => diagnostics == (false, 0usize, true),
        },
{
    match options_json {
        Some(raw) => (true, raw.len(), parsed),
        None => (false, 0, true),
    }
}

/// Presence, byte length and validity of `renderer.options_json`.
pub fn options_json_diagnostics(options_json: Option<&str>) -> (diagnostics: (bool, usize, bool))
    ensures
        match options_json {
            Some(raw) => diagnostics == (true, raw.spec_bytes().len() as usize, is_valid_json(raw@)),
            None => diagnostics == (false, 0usize, true),
        },
{
    let parsed = match options_json {
        Some(raw) => json_is_valid(raw),
        None => true,
    };
    options_json_report(options_json, parsed)
}

/// The verdict on `renderer.options_json`, given whether the value parsed as
/// JSON: a value that is set and does not parse is refused.
pub fn options_json_verdict(options_json: Option<&str>, parsed: bool) -> (checked: Result<(), OptionsJsonError>)
    ensures
        checked == (if options_json is Some && !parsed {
            Err::<(), OptionsJsonError>(OptionsJsonError::InvalidJson)
        } else {
            Ok(())
        }),
{
    if options_json.is_some() && !parsed {
        Err(OptionsJsonError::InvalidJson)
    } else {
        Ok(())
    }
}

/// Refuses `renderer.options_json` when it is set and is not valid JSON.
pub fn validate_options_json(options_json: Option<&str>) -> (checked: Result<(), OptionsJsonError>)
    ensures
        match options_json {
            Some(raw) => checked == (if is_valid_json(raw@) {
                Ok::<(), OptionsJsonError>(())
            } else {
                Err(OptionsJsonError::InvalidJson)
            }),
            None => checked is Ok,
        },
{
    let parsed = match options_json {
        Some(raw) => json_is_valid(raw),
        None => true,
    };
    options_json_verdict(options_json, parsed)
}

} // verus!
