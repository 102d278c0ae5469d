use vstd::prelude::*;
use vstd::string::StringExecFns;

use crate::config::{scale_mode_name, scale_mode_text, ScaleMode};
use crate::backend::backend_config_name;
use crate::control::{debug_quote, debug_quoted, orchestrator_table, phase_name, LifecycleModel};
use crate::present::{FrameStats, PresentBackend};
use crate::text::{decimal, decimal_text};

verus! {

/// The renderer's own diagnostics, as the status report counts them: how
/// many there are, how many are warnings and errors, and their JSON form
/// (`None` when they could not be serialised).
#[derive(Debug, Clone, PartialEq, Eq)]
pub struct RendererDiagnosticsSummary {
    pub entries: usize,
    pub warnings: usize,
    pub errors: usize,
    pub json: Option<String>,
}

/// What the runtime found out about the compositor, the configuration and
/// the renderer.
#[derive(Debug, Clone, PartialEq, Eq)]
pub struct RuntimeDiagnostics {
    pub wayland_connected: bool,
    pub dmabuf_global_available: bool,
    pub dmabuf_global_version: u32,
    pub dmabuf_formats_known: bool,
    pub dmabuf_format_count: usize,
    pub shm_available: bool,
    pub viewporter_available: bool,
    pub fractional_scale_available: bool,
    pub prefer_dmabuf_configured: bool,
    pub prefer_dmabuf_effective: bool,
    pub allow_shm_fallback: bool,
    pub nvidia_prime_offload_detected: bool,
    pub options_json_present: bool,
    pub options_json_len: usize,
    pub options_json_valid: bool,
    pub renderer_diagnostics: Option<RendererDiagnosticsSummary>,
    pub renderer_diagnostics_error: Option<String>,
}

pub open spec fn bool_word(value: bool) -> Seq<char> {
    if value {
        "true"@
    } else {
        "false"@
    }
}

/// A flag is shown as `true` exactly when it is set.
pub proof fn lemma_bool_word_tells_the_value(value: bool)
    ensures
        bool_word(value) == "true"@ <==> value,
{
    reveal_strlit("true");
    reveal_strlit("false");
    assert(bool_word(false).len() != "true"@.len());
}

fn bool_str(value: bool) -> (word: &'static str)
    ensures
        word@ == bool_word(value),
{
    if value {
        "true"
    } else {
        "false"
    }
}

/// One `key = value` line of a status table, after a line break.
pub open spec fn entry(key: Seq<char>, value: Seq<char>) -> Seq<char> {
    "\n"@ + key + " = "@ + value
}

fn push_entry(text: String, key: &str, value: &str) -> (out: String)
    ensures
        out@ == text@ + entry(key@, value@),
{
    let line = "\n".to_string().concat(key).concat(" = ").concat(value);
    text.concat(line.as_str())
}

/// Names what the `toml` crate writes for a string value: the text as a TOML
/// string literal, in whichever quoting the crate picks.
pub uninterp spec fn toml_string_literal(text: Seq<char>) -> Seq<char>;

/// Calls `toml::Value::String(..)` and its `Display`; the result is named,
/// not stated.
#[verifier::external_body]
fn toml_quote(text: &str) -> (literal: String)
    ensures
        literal@ == toml_string_literal(text@),
{
    toml::Value::String(text.to_string()).to_string()
}

pub open spec fn diagnostic_counts(d: RuntimeDiagnostics) -> (usize, usize, usize) {
    match d.renderer_diagnostics {
        Some(s) => (s.entries, s.warnings, s.errors),
        None => (0, 0, 0),
    }
}

/// The renderer diagnostics as JSON, empty when there are none or they
/// could not be serialised.
pub open spec fn diagnostics_json(d: RuntimeDiagnostics) -> Seq<char> {
    match d.renderer_diagnostics {
        Some(s) => match s.json {
            Some(json) => json@,
            None => Seq::empty(),
        },
        None => Seq::empty(),
    }
}

pub open spec fn diagnostics_error(d: RuntimeDiagnostics) -> Seq<char> {
    match d.renderer_diagnostics_error {
        Some(e) => e@,
        None => Seq::empty(),
    }
}

/// The `[runtime]` table of the status report: one line per diagnostic, in
/// a fixed order, the renderer's diagnostics JSON and error as TOML strings.
pub open spec fn runtime_table(d: RuntimeDiagnostics) -> Seq<char> {
    runtime_flag_lines(d) + runtime_renderer_lines(d)
}
/// The head of the `[runtime]` table: what is known of the compositor and
/// of the configuration.
pub open spec fn runtime_flag_lines(d: RuntimeDiagnostics) -> Seq<char> {
    "[runtime]"@ + entry("wayland_connected"@, bool_word(d.wayland_connected)) + entry(
        "dmabuf_global_available"@,
        bool_word(d.dmabuf_global_available),
    ) + entry("dmabuf_global_version"@, decimal(d.dmabuf_global_version as nat)) + entry(
        "dmabuf_formats_known"@,
        bool_word(d.dmabuf_formats_known),
    ) + entry("dmabuf_format_count"@, decimal(d.dmabuf_format_count as nat)) + entry(
        "shm_available"@,
        bool_word(d.shm_available),
    ) + entry("viewporter_available"@, bool_word(d.viewporter_available)) + entry(
        "fractional_scale_available"@,
        bool_word(d.fractional_scale_available),
    ) + entry("prefer_dmabuf_configured"@, bool_word(d.prefer_dmabuf_configured)) + entry(
        "prefer_dmabuf_effective"@,
        bool_word(d.prefer_dmabuf_effective),
    ) + entry("allow_shm_fallback"@, bool_word(d.allow_shm_fallback)) + entry(
        "nvidia_prime_offload_detected"@,
        bool_word(d.nvidia_prime_offload_detected),
    ) + entry("options_json_present"@, bool_word(d.options_json_present)) + entry(
        "options_json_len"@,
        decimal(d.options_json_len as nat),
    ) + entry("options_json_valid"@, bool_word(d.options_json_valid))
}
/// The tail of the `[runtime]` table: the renderer's diagnostics.
pub open spec fn runtime_renderer_lines(d: RuntimeDiagnostics) -> Seq<char> {
    entry(
        "renderer_diagnostic_count"@,
        decimal(diagnostic_counts(d).0 as nat),
    ) + entry("renderer_warning_count"@, decimal(diagnostic_counts(d).1 as nat)) + entry(
        "renderer_error_count"@,
        decimal(diagnostic_counts(d).2 as nat),
    ) + entry("renderer_diagnostics_json"@, toml_string_literal(diagnostics_json(d))) + entry(
        "renderer_diagnostics_error"@,
        toml_string_literal(diagnostics_error(d)),
    )
}

impl RuntimeDiagnostics {
    /// The `[runtime]` table of the status report.
    pub fn render_runtime_table(&self) -> (table: String)
        ensures
            table@ == runtime_table(*self),
    {
        let head = self.render_flag_lines();
        let tail = self.render_renderer_lines();
        head.concat(tail.as_str())
    }

    fn render_renderer_lines(&self) -> (lines: String)
        ensures
            lines@ == runtime_renderer_lines(*self),
    {
        let (entries, warnings, errors) = match &self.renderer_diagnostics {
            Some(s) => (s.entries, s.warnings, s.errors),
            None => (0, 0, 0),
        };
        let json = match &self.renderer_diagnostics {
            Some(s) => match &s.json {
                Some(json) => toml_quote(json.as_str()),
                None => toml_quote(""),
            },
            None => toml_quote(""),
        };
        let error = match &self.renderer_diagnostics_error {
            Some(e) => toml_quote(e.as_str()),
            None => toml_quote(""),
        };
        proof {
            reveal_strlit("");
            assert(""@ =~= Seq::<char>::empty());
        }
        let t = push_entry(String::new(), "renderer_diagnostic_count", decimal_text(entries as u64).as_str());
        let t = push_entry(t, "renderer_warning_count", decimal_text(warnings as u64).as_str());
        let t = push_entry(t, "renderer_error_count", decimal_text(errors as u64).as_str());
        let t = push_entry(t, "renderer_diagnostics_json", json.as_str());
        let lines = push_entry(t, "renderer_diagnostics_error", error.as_str());
        assert(lines@ =~= runtime_renderer_lines(*self));
        lines
    }

    fn render_flag_lines(&self) -> (lines: String)
        ensures
            lines@ == runtime_flag_lines(*self),
    {
        let t = "[runtime]".to_string();
        let t = push_entry(t, "wayland_connected", bool_str(self.wayland_connected));
        let t = push_entry(t, "dmabuf_global_available", bool_str(self.dmabuf_global_available));
        let t = push_entry(t, "dmabuf_global_version", decimal_text(self.dmabuf_global_version as u64).as_str());
        let t = push_entry(t, "dmabuf_formats_known", bool_str(self.dmabuf_formats_known));
        let t = push_entry(t, "dmabuf_format_count", decimal_text(self.dmabuf_format_count as u64).as_str());
        let t = push_entry(t, "shm_available", bool_str(self.shm_available));
        let t = push_entry(t, "viewporter_available", bool_str(self.viewporter_available));
        let t = push_entry(t, "fractional_scale_available", bool_str(self.fractional_scale_available));
        let t = push_entry(t, "prefer_dmabuf_configured", bool_str(self.prefer_dmabuf_configured));
        let t = push_entry(t, "prefer_dmabuf_effective", bool_str(self.prefer_dmabuf_effective));
        let t = push_entry(t, "allow_shm_fallback", bool_str(self.allow_shm_fallback));
        let t = push_entry(t, "nvidia_prime_offload_detected", bool_str(self.nvidia_prime_offload_detected));
        let t = push_entry(t, "options_json_present", bool_str(self.options_json_present));
        let t = push_entry(t, "options_json_len", decimal_text(self.options_json_len as u64).as_str());
        let lines = push_entry(t, "options_json_valid", bool_str(self.options_json_valid));
        assert(lines@ =~= runtime_flag_lines(*self));
        lines
    }
}

pub open spec fn present_backend_word(backend: Option<PresentBackend>) -> Seq<char> {
    match backend {
        Some(PresentBackend::Dmabuf) => "dmabuf"@,
        Some(PresentBackend::Shm) => "shm"@,
        None => Seq::empty(),
    }
}

/// The frame lines that close a surface's status table, each after a line
/// break: the last backend in quotes, the last frame's size, the buffers in
/// flight, the frame counters, and the last error in `Debug` quoting.
pub open spec fn frame_lines(stats: FrameStats) -> Seq<char> {
    entry("last_present_backend"@, "\""@ + present_backend_word(stats.last_present_backend) + "\""@) + entry(
        "last_frame_width"@,
        decimal(stats.last_frame_width as nat),
    ) + entry("last_frame_height"@, decimal(stats.last_frame_height as nat)) + entry(
        "in_flight_buffers"@,
        decimal(stats.in_flight_count as nat),
    ) + entry("acquired"@, decimal(stats.acquired as nat)) + entry("presented"@, decimal(stats.presented as nat))
        + entry("skipped_by_backpressure"@, decimal(stats.skipped_by_backpressure as nat)) + entry(
        "no_frame_polls"@,
        decimal(stats.no_frame_polls as nat),
    ) + entry("released_buffers"@, decimal(stats.released_buffers as nat)) + entry(
        "last_error"@,
        debug_quoted(
            match stats.last_error {
                Some(e) => e@,
                None => Seq::empty(),
            },
        ),
    )
}

impl FrameStats {
    /// The frame lines of the status report.
    pub fn render_frame_lines(&self) -> (lines: String)
        ensures
            lines@ == frame_lines(*self),
    {
        proof {
            reveal_strlit("");
            assert(""@ =~= Seq::<char>::empty());
        }
        let backend = match self.last_present_backend {
            Some(b) => b.as_str(),
            None => "",
        };
        let quoted_backend = "\"".to_string().concat(backend).concat("\"");
        let error = match &self.last_error {
            Some(e) => debug_quote(e.as_str()),
            None => debug_quote(""),
        };
        let t = push_entry(String::new(), "last_present_backend", quoted_backend.as_str());
        let t = push_entry(t, "last_frame_width", decimal_text(self.last_frame_width as u64).as_str());
        let t = push_entry(t, "last_frame_height", decimal_text(self.last_frame_height as u64).as_str());
        let t = push_entry(t, "in_flight_buffers", decimal_text(self.in_flight_count as u64).as_str());
        let t = push_entry(t, "acquired", decimal_text(self.acquired).as_str());
        let t = push_entry(t, "presented", decimal_text(self.presented).as_str());
        let t = push_entry(t, "skipped_by_backpressure", decimal_text(self.skipped_by_backpressure).as_str());
        let t = push_entry(t, "no_frame_polls", decimal_text(self.no_frame_polls).as_str());
        let t = push_entry(t, "released_buffers", decimal_text(self.released_buffers).as_str());
        let lines = push_entry(t, "last_error", error.as_str());
        assert(lines@ =~= frame_lines(*self));
        lines
    }
}

/// How an output's frames are presented, without its fractional scale and
/// viewport source: those are floating-point values, which the caller writes
/// (with three decimals) and hands over as text.
#[derive(Debug, Clone, PartialEq, Eq)]
pub struct PresentationLayout {
    pub configured: bool,
    pub logical_width: u32,
    pub logical_height: u32,
    pub render_width: u32,
    pub render_height: u32,
    pub output_mode_width: u32,
    pub output_mode_height: u32,
    pub output_scale: u32,
    pub scale_mode: ScaleMode,
    pub paused: bool,
    pub viewport_width: u32,
    pub viewport_height: u32,
}

/// The `[presentation]` table, after a blank line: the layout's entries, the
/// fractional scale and viewport source as given, in a fixed order.
pub open spec fn presentation_table(
    p: PresentationLayout,
    fractional_scale: Seq<char>,
    viewport_source: Option<(Seq<char>, Seq<char>, Seq<char>, Seq<char>)>,
) -> Seq<char> {
    "\n\n[presentation]"@ + entry("configured"@, bool_word(p.configured)) + entry(
        "logical_width"@,
        decimal(p.logical_width as nat),
    ) + entry("logical_height"@, decimal(p.logical_height as nat)) + entry(
        "render_width"@,
        decimal(p.render_width as nat),
    ) + entry("render_height"@, decimal(p.render_height as nat)) + entry(
        "output_mode_width"@,
        decimal(p.output_mode_width as nat),
    ) + entry("output_mode_height"@, decimal(p.output_mode_height as nat)) + entry(
        "output_scale"@,
        decimal(p.output_scale as nat),
    ) + entry("fractional_scale"@, fractional_scale) + entry(
        "scale_mode"@,
        "\""@ + scale_mode_text(p.scale_mode) + "\""@,
    ) + entry("paused"@, bool_word(p.paused)) + entry("viewport_width"@, decimal(p.viewport_width as nat))
        + entry("viewport_height"@, decimal(p.viewport_height as nat)) + match viewport_source {
        Some((x, y, width, height)) => entry("viewport_source_x"@, x) + entry("viewport_source_y"@, y) + entry(
            "viewport_source_width"@,
            width,
        ) + entry("viewport_source_height"@, height),
        None => Seq::empty(),
    }
}

fn render_presentation_table(
    p: &PresentationLayout,
    fractional_scale: &str,
    viewport_source: Option<(&str, &str, &str, &str)>,
) -> (table: String)
    ensures
        table@ == presentation_table(
            *p,
            fractional_scale@,
            match viewport_source {
                Some((x, y, width, height)) => Some((x@, y@, width@, height@)),
                None => None,
            },
        ),
{
    let quoted_mode = "\"".to_string().concat(scale_mode_name(p.scale_mode)).concat("\"");
    let t = "\n\n[presentation]".to_string();
    let t = push_entry(t, "configured", bool_str(p.configured));
    let t = push_entry(t, "logical_width", decimal_text(p.logical_width as u64).as_str());
    let t = push_entry(t, "logical_height", decimal_text(p.logical_height as u64).as_str());
    let t = push_entry(t, "render_width", decimal_text(p.render_width as u64).as_str());
    let t = push_entry(t, "render_height", decimal_text(p.render_height as u64).as_str());
    let t = push_entry(t, "output_mode_width", decimal_text(p.output_mode_width as u64).as_str());
    let t = push_entry(t, "output_mode_height", decimal_text(p.output_mode_height as u64).as_str());
    let t = push_entry(t, "output_scale", decimal_text(p.output_scale as u64).as_str());
    let t = push_entry(t, "fractional_scale", fractional_scale);
    let t = push_entry(t, "scale_mode", quoted_mode.as_str());
    let t = push_entry(t, "paused", bool_str(p.paused));
    let t = push_entry(t, "viewport_width", decimal_text(p.viewport_width as u64).as_str());
    let t = push_entry(t, "viewport_height", decimal_text(p.viewport_height as u64).as_str());
    match viewport_source {
        Some((x, y, width, height)) => {
            let v = push_entry(String::new(), "viewport_source_x", x);
            let v = push_entry(v, "viewport_source_y", y);
            let v = push_entry(v, "viewport_source_width", width);
            let v = push_entry(v, "viewport_source_height", height);
            let table = t.concat(v.as_str());
            assert(v@ =~= entry("viewport_source_x"@, x@) + entry("viewport_source_y"@, y@) + entry(
                "viewport_source_width"@,
                width@,
            ) + entry("viewport_source_height"@, height@));
            table
        },
        None => {
            assert(t@ =~= t@ + Seq::<char>::empty());
            t
        },
    }
}

/// The status of one output: its `[runtime]` table, then, after a blank
/// line, its `[presentation]` table closed by its frame lines.
pub open spec fn output_status(
    d: RuntimeDiagnostics,
    p: PresentationLayout,
    fractional_scale: Seq<char>,
    viewport_source: Option<(Seq<char>, Seq<char>, Seq<char>, Seq<char>)>,
    frames: FrameStats,
) -> Seq<char> {
    runtime_table(d) + presentation_table(p, fractional_scale, viewport_source) + frame_lines(frames)
}

/// Writes the status of one output. `fractional_scale` and
/// `viewport_source` are the output's fractional scale and viewport source
/// rectangle as the caller wrote them.
pub fn render_output_status(
    d: &RuntimeDiagnostics,
    p: &PresentationLayout,
    fractional_scale: &str,
    viewport_source: Option<(&str, &str, &str, &str)>,
    frames: &FrameStats,
) -> (text: String)
    ensures
        text@ == output_status(
            *d,
            *p,
            fractional_scale@,
            match viewport_source {
                Some((x, y, width, height)) => Some((x@, y@, width@, height@)),
                None => None,
            },
            *frames,
        ),
{
    let runtime = d.render_runtime_table();
    let presentation = render_presentation_table(p, fractional_scale, viewport_source);
    let frames = frames.render_frame_lines();
    runtime.concat(presentation.as_str()).concat(frames.as_str())
}

/// `text` holds the line `key = value`: it starts after a line break and
/// ends at the next line break or at the end of the text.
#[verifier::opaque]
pub open spec fn has_line(text: Seq<char>, key: Seq<char>, value: Seq<char>) -> bool {
    exists|pre: Seq<char>, post: Seq<char>|
        text == pre + entry(key, value) + post && (post.len() == 0 || post[0] == '\n')
}

proof fn lemma_entry_starts_a_line(key: Seq<char>, value: Seq<char>)
    ensures
        entry(key, value).len() > 0,
        entry(key, value)[0] == '\n',
{
    reveal_strlit("\n");
    assert(("\n"@ + key)[0] == '\n');
    assert((("\n"@ + key) + " = "@)[0] == '\n');
}

proof fn lemma_line_at_end(pre: Seq<char>, key: Seq<char>, value: Seq<char>)
    ensures
        has_line(pre + entry(key, value), key, value),
{
    reveal(has_line);
    let post = Seq::<char>::empty();
    assert(pre + entry(key, value) =~= pre + entry(key, value) + post);
}

proof fn lemma_line_appended(text: Seq<char>, key: Seq<char>, value: Seq<char>, more: Seq<char>)
    requires
        has_line(text, key, value),
        more.len() == 0 || more[0] == '\n',
    ensures
        has_line(text + more, key, value),
{
    reveal(has_line);
    let (pre, post) = choose|pre: Seq<char>, post: Seq<char>|
        text == pre + entry(key, value) + post && (post.len() == 0 || post[0] == '\n');
    assert(text + more =~= pre + entry(key, value) + (post + more));
    if post.len() == 0 {
        if more.len() > 0 {
            assert((post + more)[0] == more[0]);
        }
    } else {
        assert((post + more)[0] == post[0]);
    }
}

proof fn lemma_line_prepended(front: Seq<char>, text: Seq<char>, key: Seq<char>, value: Seq<char>)
    requires
        has_line(text, key, value),
    ensures
        has_line(front + text, key, value),
{
    reveal(has_line);
    let (pre, post) = choose|pre: Seq<char>, post: Seq<char>|
        text == pre + entry(key, value) + post && (post.len() == 0 || post[0] == '\n');
    assert(front + text =~= (front + pre) + entry(key, value) + post);
}

/// `header` followed by one `key = value` line per pair, in order.
pub open spec fn lines_after(header: Seq<char>, lines: Seq<(Seq<char>, Seq<char>)>) -> Seq<char>
    decreases lines.len(),
{
    if lines.len() == 0 {
        header
    } else {
        lines_after(header, lines.drop_last()) + entry(lines.last().0, lines.last().1)
    }
}

proof fn lemma_lines_after_push(header: Seq<char>, lines: Seq<(Seq<char>, Seq<char>)>, key: Seq<char>, value: Seq<char>)
    ensures
        lines_after(header, lines.push((key, value))) == lines_after(header, lines) + entry(key, value),
{
    assert(lines.push((key, value)).drop_last() =~= lines);
}

/// Every pair's line is in the text.
proof fn lemma_lines_after_has_each(header: Seq<char>, lines: Seq<(Seq<char>, Seq<char>)>, j: int)
    requires
        0 <= j < lines.len(),
    ensures
        has_line(lines_after(header, lines), lines[j].0, lines[j].1),
    decreases lines.len(),
{
    let front = lines.drop_last();
    if j == lines.len() - 1 {
        lemma_line_at_end(lines_after(header, front), lines[j].0, lines[j].1);
    } else {
        assert(front[j] == lines[j]);
        lemma_lines_after_has_each(header, front, j);
        lemma_entry_starts_a_line(lines.last().0, lines.last().1);
        lemma_line_appended(lines_after(header, front), lines[j].0, lines[j].1, entry(lines.last().0, lines.last().1));
    }
}

/// The head of the `[runtime]` table holds each of its fields' lines.
proof fn lemma_flag_lines_show_each_field(d: RuntimeDiagnostics)
    ensures
        has_line(runtime_flag_lines(d), "wayland_connected"@, bool_word(d.wayland_connected)),
        has_line(runtime_flag_lines(d), "dmabuf_global_available"@, bool_word(d.dmabuf_global_available)),
        has_line(runtime_flag_lines(d), "dmabuf_global_version"@, decimal(d.dmabuf_global_version as nat)),
        has_line(runtime_flag_lines(d), "dmabuf_formats_known"@, bool_word(d.dmabuf_formats_known)),
        has_line(runtime_flag_lines(d), "dmabuf_format_count"@, decimal(d.dmabuf_format_count as nat)),
        has_line(runtime_flag_lines(d), "shm_available"@, bool_word(d.shm_available)),
        has_line(runtime_flag_lines(d), "viewporter_available"@, bool_word(d.viewporter_available)),
        has_line(runtime_flag_lines(d), "fractional_scale_available"@, bool_word(d.fractional_scale_available)),
        has_line(runtime_flag_lines(d), "prefer_dmabuf_configured"@, bool_word(d.prefer_dmabuf_configured)),
        has_line(runtime_flag_lines(d), "prefer_dmabuf_effective"@, bool_word(d.prefer_dmabuf_effective)),
        has_line(runtime_flag_lines(d), "allow_shm_fallback"@, bool_word(d.allow_shm_fallback)),
        has_line(runtime_flag_lines(d), "nvidia_prime_offload_detected"@, bool_word(d.nvidia_prime_offload_detected)),
        has_line(runtime_flag_lines(d), "options_json_present"@, bool_word(d.options_json_present)),
        has_line(runtime_flag_lines(d), "options_json_len"@, decimal(d.options_json_len as nat)),
        has_line(runtime_flag_lines(d), "options_json_valid"@, bool_word(d.options_json_valid)),
{
    let l0 = Seq::<(Seq<char>, Seq<char>)>::empty();
    let l1 = l0.push(("wayland_connected"@, bool_word(d.wayland_connected)));
    lemma_lines_after_push("[runtime]"@, l0, "wayland_connected"@, bool_word(d.wayland_connected));
    let l2 = l1.push(("dmabuf_global_available"@, bool_word(d.dmabuf_global_available)));
    lemma_lines_after_push("[runtime]"@, l1, "dmabuf_global_available"@, bool_word(d.dmabuf_global_available));
    let l3 = l2.push(("dmabuf_global_version"@, decimal(d.dmabuf_global_version as nat)));
    lemma_lines_after_push("[runtime]"@, l2, "dmabuf_global_version"@, decimal(d.dmabuf_global_version as nat));
    let l4 = l3.push(("dmabuf_formats_known"@, bool_word(d.dmabuf_formats_known)));
    lemma_lines_after_push("[runtime]"@, l3, "dmabuf_formats_known"@, bool_word(d.dmabuf_formats_known));
    let l5 = l4.push(("dmabuf_format_count"@, decimal(d.dmabuf_format_count as nat)));
    lemma_lines_after_push("[runtime]"@, l4, "dmabuf_format_count"@, decimal(d.dmabuf_format_count as nat));
    let l6 = l5.push(("shm_available"@, bool_word(d.shm_available)));
    lemma_lines_after_push("[runtime]"@, l5, "shm_available"@, bool_word(d.shm_available));
    let l7 = l6.push(("viewporter_available"@, bool_word(d.viewporter_available)));
    lemma_lines_after_push("[runtime]"@, l6, "viewporter_available"@, bool_word(d.viewporter_available));
    let l8 = l7.push(("fractional_scale_available"@, bool_word(d.fractional_scale_available)));
    lemma_lines_after_push("[runtime]"@, l7, "fractional_scale_available"@, bool_word(d.fractional_scale_available));
    let l9 = l8.push(("prefer_dmabuf_configured"@, bool_word(d.prefer_dmabuf_configured)));
    lemma_lines_after_push("[runtime]"@, l8, "prefer_dmabuf_configured"@, bool_word(d.prefer_dmabuf_configured));
    let l10 = l9.push(("prefer_dmabuf_effective"@, bool_word(d.prefer_dmabuf_effective)));
    lemma_lines_after_push("[runtime]"@, l9, "prefer_dmabuf_effective"@, bool_word(d.prefer_dmabuf_effective));
    let l11 = l10.push(("allow_shm_fallback"@, bool_word(d.allow_shm_fallback)));
    lemma_lines_after_push("[runtime]"@, l10, "allow_shm_fallback"@, bool_word(d.allow_shm_fallback));
    let l12 = l11.push(("nvidia_prime_offload_detected"@, bool_word(d.nvidia_prime_offload_detected)));
    lemma_lines_after_push("[runtime]"@, l11, "nvidia_prime_offload_detected"@, bool_word(d.nvidia_prime_offload_detected));
    let l13 = l12.push(("options_json_present"@, bool_word(d.options_json_present)));
    lemma_lines_after_push("[runtime]"@, l12, "options_json_present"@, bool_word(d.options_json_present));
    let l14 = l13.push(("options_json_len"@, decimal(d.options_json_len as nat)));
    lemma_lines_after_push("[runtime]"@, l13, "options_json_len"@, decimal(d.options_json_len as nat));
    let l15 = l14.push(("options_json_valid"@, bool_word(d.options_json_valid)));
    lemma_lines_after_push("[runtime]"@, l14, "options_json_valid"@, bool_word(d.options_json_valid));
    assert(lines_after("[runtime]"@, l15) == runtime_flag_lines(d));
    lemma_lines_after_has_each("[runtime]"@, l15, 0);
    assert(l15[0] == ("wayland_connected"@, bool_word(d.wayland_connected)));
    lemma_lines_after_has_each("[runtime]"@, l15, 1);
    assert(l15[1] == ("dmabuf_global_available"@, bool_word(d.dmabuf_global_available)));
    lemma_lines_after_has_each("[runtime]"@, l15, 2);
    assert(l15[2] == ("dmabuf_global_version"@, decimal(d.dmabuf_global_version as nat)));
    lemma_lines_after_has_each("[runtime]"@, l15, 3);
    assert(l15[3] == ("dmabuf_formats_known"@, bool_word(d.dmabuf_formats_known)));
    lemma_lines_after_has_each("[runtime]"@, l15, 4);
    assert(l15[4] == ("dmabuf_format_count"@, decimal(d.dmabuf_format_count as nat)));
    lemma_lines_after_has_each("[runtime]"@, l15, 5);
    assert(l15[5] == ("shm_available"@, bool_word(d.shm_available)));
    lemma_lines_after_has_each("[runtime]"@, l15, 6);
    assert(l15[6] == ("viewporter_available"@, bool_word(d.viewporter_available)));
    lemma_lines_after_has_each("[runtime]"@, l15, 7);
    assert(l15[7] == ("fractional_scale_available"@, bool_word(d.fractional_scale_available)));
    lemma_lines_after_has_each("[runtime]"@, l15, 8);
    assert(l15[8] == ("prefer_dmabuf_configured"@, bool_word(d.prefer_dmabuf_configured)));
    lemma_lines_after_has_each("[runtime]"@, l15, 9);
    assert(l15[9] == ("prefer_dmabuf_effective"@, bool_word(d.prefer_dmabuf_effective)));
    lemma_lines_after_has_each("[runtime]"@, l15, 10);
    assert(l15[10] == ("allow_shm_fallback"@, bool_word(d.allow_shm_fallback)));
    lemma_lines_after_has_each("[runtime]"@, l15, 11);
    assert(l15[11] == ("nvidia_prime_offload_detected"@, bool_word(d.nvidia_prime_offload_detected)));
    lemma_lines_after_has_each("[runtime]"@, l15, 12);
    assert(l15[12] == ("options_json_present"@, bool_word(d.options_json_present)));
    lemma_lines_after_has_each("[runtime]"@, l15, 13);
    assert(l15[13] == ("options_json_len"@, decimal(d.options_json_len as nat)));
    lemma_lines_after_has_each("[runtime]"@, l15, 14);
    assert(l15[14] == ("options_json_valid"@, bool_word(d.options_json_valid)));
}

/// The tail of the `[runtime]` table holds each of its fields' lines.
proof fn lemma_renderer_lines_show_each_field(d: RuntimeDiagnostics)
    ensures
        has_line(runtime_renderer_lines(d), "renderer_diagnostic_count"@, decimal(diagnostic_counts(d).0 as nat)),
        has_line(runtime_renderer_lines(d), "renderer_warning_count"@, decimal(diagnostic_counts(d).1 as nat)),
        has_line(runtime_renderer_lines(d), "renderer_error_count"@, decimal(diagnostic_counts(d).2 as nat)),
        has_line(runtime_renderer_lines(d), "renderer_diagnostics_json"@, toml_string_literal(diagnostics_json(d))),
        has_line(runtime_renderer_lines(d), "renderer_diagnostics_error"@, toml_string_literal(diagnostics_error(d))),
{
    let l0 = Seq::<(Seq<char>, Seq<char>)>::empty();
    let l1 = l0.push(("renderer_diagnostic_count"@, decimal(diagnostic_counts(d).0 as nat)));
    lemma_lines_after_push(Seq::<char>::empty(), l0, "renderer_diagnostic_count"@, decimal(diagnostic_counts(d).0 as nat));
    let l2 = l1.push(("renderer_warning_count"@, decimal(diagnostic_counts(d).1 as nat)));
    lemma_lines_after_push(Seq::<char>::empty(), l1, "renderer_warning_count"@, decimal(diagnostic_counts(d).1 as nat));
    let l3 = l2.push(("renderer_error_count"@, decimal(diagnostic_counts(d).2 as nat)));
    lemma_lines_after_push(Seq::<char>::empty(), l2, "renderer_error_count"@, decimal(diagnostic_counts(d).2 as nat));
    let l4 = l3.push(("renderer_diagnostics_json"@, toml_string_literal(diagnostics_json(d))));
    lemma_lines_after_push(Seq::<char>::empty(), l3, "renderer_diagnostics_json"@, toml_string_literal(diagnostics_json(d)));
    let l5 = l4.push(("renderer_diagnostics_error"@, toml_string_literal(diagnostics_error(d))));
    lemma_lines_after_push(Seq::<char>::empty(), l4, "renderer_diagnostics_error"@, toml_string_literal(diagnostics_error(d)));
    assert(lines_after(Seq::<char>::empty(), l5) == runtime_renderer_lines(d));
    lemma_lines_after_has_each(Seq::<char>::empty(), l5, 0);
    assert(l5[0] == ("renderer_diagnostic_count"@, decimal(diagnostic_counts(d).0 as nat)));
    lemma_lines_after_has_each(Seq::<char>::empty(), l5, 1);
    assert(l5[1] == ("renderer_warning_count"@, decimal(diagnostic_counts(d).1 as nat)));
    lemma_lines_after_has_each(Seq::<char>::empty(), l5, 2);
    assert(l5[2] == ("renderer_error_count"@, decimal(diagnostic_counts(d).2 as nat)));
    lemma_lines_after_has_each(Seq::<char>::empty(), l5, 3);
    assert(l5[3] == ("renderer_diagnostics_json"@, toml_string_literal(diagnostics_json(d))));
    lemma_lines_after_has_each(Seq::<char>::empty(), l5, 4);
    assert(l5[4] == ("renderer_diagnostics_error"@, toml_string_literal(diagnostics_error(d))));
}

/// Each line of the `[runtime]` table shows its own diagnostic: the table
/// holds `key = value` for every key, with the value of that key's field.
pub proof fn lemma_runtime_table_shows_each_field(d: RuntimeDiagnostics)
    ensures
        has_line(runtime_table(d), "wayland_connected"@, bool_word(d.wayland_connected)),
        has_line(runtime_table(d), "dmabuf_global_available"@, bool_word(d.dmabuf_global_available)),
        has_line(runtime_table(d), "dmabuf_global_version"@, decimal(d.dmabuf_global_version as nat)),
        has_line(runtime_table(d), "dmabuf_formats_known"@, bool_word(d.dmabuf_formats_known)),
        has_line(runtime_table(d), "dmabuf_format_count"@, decimal(d.dmabuf_format_count as nat)),
        has_line(runtime_table(d), "shm_available"@, bool_word(d.shm_available)),
        has_line(runtime_table(d), "viewporter_available"@, bool_word(d.viewporter_available)),
        has_line(runtime_table(d), "fractional_scale_available"@, bool_word(d.fractional_scale_available)),
        has_line(runtime_table(d), "prefer_dmabuf_configured"@, bool_word(d.prefer_dmabuf_configured)),
        has_line(runtime_table(d), "prefer_dmabuf_effective"@, bool_word(d.prefer_dmabuf_effective)),
        has_line(runtime_table(d), "allow_shm_fallback"@, bool_word(d.allow_shm_fallback)),
        has_line(runtime_table(d), "nvidia_prime_offload_detected"@, bool_word(d.nvidia_prime_offload_detected)),
        has_line(runtime_table(d), "options_json_present"@, bool_word(d.options_json_present)),
        has_line(runtime_table(d), "options_json_len"@, decimal(d.options_json_len as nat)),
        has_line(runtime_table(d), "options_json_valid"@, bool_word(d.options_json_valid)),
        has_line(runtime_table(d), "renderer_diagnostic_count"@, decimal(diagnostic_counts(d).0 as nat)),
        has_line(runtime_table(d), "renderer_warning_count"@, decimal(diagnostic_counts(d).1 as nat)),
        has_line(runtime_table(d), "renderer_error_count"@, decimal(diagnostic_counts(d).2 as nat)),
        has_line(runtime_table(d), "renderer_diagnostics_json"@, toml_string_literal(diagnostics_json(d))),
        has_line(runtime_table(d), "renderer_diagnostics_error"@, toml_string_literal(diagnostics_error(d))),
{
    lemma_flag_lines_show_each_field(d);
    lemma_renderer_lines_show_each_field(d);
    lemma_entry_starts_a_line("renderer_diagnostic_count"@, decimal(diagnostic_counts(d).0 as nat));
    assert(runtime_renderer_lines(d)[0] == '\n');
    lemma_line_appended(runtime_flag_lines(d), "wayland_connected"@, bool_word(d.wayland_connected), runtime_renderer_lines(d));
    lemma_line_appended(runtime_flag_lines(d), "dmabuf_global_available"@, bool_word(d.dmabuf_global_available), runtime_renderer_lines(d));
    lemma_line_appended(runtime_flag_lines(d), "dmabuf_global_version"@, decimal(d.dmabuf_global_version as nat), runtime_renderer_lines(d));
    lemma_line_appended(runtime_flag_lines(d), "dmabuf_formats_known"@, bool_word(d.dmabuf_formats_known), runtime_renderer_lines(d));
    lemma_line_appended(runtime_flag_lines(d), "dmabuf_format_count"@, decimal(d.dmabuf_format_count as nat), runtime_renderer_lines(d));
    lemma_line_appended(runtime_flag_lines(d), "shm_available"@, bool_word(d.shm_available), runtime_renderer_lines(d));
    lemma_line_appended(runtime_flag_lines(d), "viewporter_available"@, bool_word(d.viewporter_available), runtime_renderer_lines(d));
    lemma_line_appended(runtime_flag_lines(d), "fractional_scale_available"@, bool_word(d.fractional_scale_available), runtime_renderer_lines(d));
    lemma_line_appended(runtime_flag_lines(d), "prefer_dmabuf_configured"@, bool_word(d.prefer_dmabuf_configured), runtime_renderer_lines(d));
    lemma_line_appended(runtime_flag_lines(d), "prefer_dmabuf_effective"@, bool_word(d.prefer_dmabuf_effective), runtime_renderer_lines(d));
    lemma_line_appended(runtime_flag_lines(d), "allow_shm_fallback"@, bool_word(d.allow_shm_fallback), runtime_renderer_lines(d));
    lemma_line_appended(runtime_flag_lines(d), "nvidia_prime_offload_detected"@, bool_word(d.nvidia_prime_offload_detected), runtime_renderer_lines(d));
    lemma_line_appended(runtime_flag_lines(d), "options_json_present"@, bool_word(d.options_json_present), runtime_renderer_lines(d));
    lemma_line_appended(runtime_flag_lines(d), "options_json_len"@, decimal(d.options_json_len as nat), runtime_renderer_lines(d));
    lemma_line_appended(runtime_flag_lines(d), "options_json_valid"@, bool_word(d.options_json_valid), runtime_renderer_lines(d));
    lemma_line_prepended(runtime_flag_lines(d), runtime_renderer_lines(d), "renderer_diagnostic_count"@, decimal(diagnostic_counts(d).0 as nat));
    lemma_line_prepended(runtime_flag_lines(d), runtime_renderer_lines(d), "renderer_warning_count"@, decimal(diagnostic_counts(d).1 as nat));
    lemma_line_prepended(runtime_flag_lines(d), runtime_renderer_lines(d), "renderer_error_count"@, decimal(diagnostic_counts(d).2 as nat));
    lemma_line_prepended(runtime_flag_lines(d), runtime_renderer_lines(d), "renderer_diagnostics_json"@, toml_string_literal(diagnostics_json(d)));
    lemma_line_prepended(runtime_flag_lines(d), runtime_renderer_lines(d), "renderer_diagnostics_error"@, toml_string_literal(diagnostics_error(d)));
}

/// Each line of the `[presentation]` table shows its own field, and the
/// viewport source lines, when there is a source, show its four values.
pub proof fn lemma_presentation_table_shows_each_field(
    p: PresentationLayout,
    fractional_scale: Seq<char>,
    viewport_source: Option<(Seq<char>, Seq<char>, Seq<char>, Seq<char>)>,
)
    ensures
        has_line(presentation_table(p, fractional_scale, viewport_source), "configured"@, bool_word(p.configured)),
        has_line(presentation_table(p, fractional_scale, viewport_source), "logical_width"@, decimal(p.logical_width as nat)),
        has_line(presentation_table(p, fractional_scale, viewport_source), "logical_height"@, decimal(p.logical_height as nat)),
        has_line(presentation_table(p, fractional_scale, viewport_source), "render_width"@, decimal(p.render_width as nat)),
        has_line(presentation_table(p, fractional_scale, viewport_source), "render_height"@, decimal(p.render_height as nat)),
        has_line(presentation_table(p, fractional_scale, viewport_source), "output_mode_width"@, decimal(p.output_mode_width as nat)),
        has_line(presentation_table(p, fractional_scale, viewport_source), "output_mode_height"@, decimal(p.output_mode_height as nat)),
        has_line(presentation_table(p, fractional_scale, viewport_source), "output_scale"@, decimal(p.output_scale as nat)),
        has_line(presentation_table(p, fractional_scale, viewport_source), "fractional_scale"@, fractional_scale),
        has_line(presentation_table(p, fractional_scale, viewport_source), "scale_mode"@, "\""@ + scale_mode_text(p.scale_mode) + "\""@),
        has_line(presentation_table(p, fractional_scale, viewport_source), "paused"@, bool_word(p.paused)),
        has_line(presentation_table(p, fractional_scale, viewport_source), "viewport_width"@, decimal(p.viewport_width as nat)),
        has_line(presentation_table(p, fractional_scale, viewport_source), "viewport_height"@, decimal(p.viewport_height as nat)),
        viewport_source matches Some((x, y, width, height)) ==> {
            &&& has_line(presentation_table(p, fractional_scale, viewport_source), "viewport_source_x"@, x)
            &&& has_line(presentation_table(p, fractional_scale, viewport_source), "viewport_source_y"@, y)
            &&& has_line(presentation_table(p, fractional_scale, viewport_source), "viewport_source_width"@, width)
            &&& has_line(presentation_table(p, fractional_scale, viewport_source), "viewport_source_height"@, height)
        },
{
    let l0 = Seq::<(Seq<char>, Seq<char>)>::empty();
    let l1 = l0.push(("configured"@, bool_word(p.configured)));
    lemma_lines_after_push("\n\n[presentation]"@, l0, "configured"@, bool_word(p.configured));
    let l2 = l1.push(("logical_width"@, decimal(p.logical_width as nat)));
    lemma_lines_after_push("\n\n[presentation]"@, l1, "logical_width"@, decimal(p.logical_width as nat));
    let l3 = l2.push(("logical_height"@, decimal(p.logical_height as nat)));
    lemma_lines_after_push("\n\n[presentation]"@, l2, "logical_height"@, decimal(p.logical_height as nat));
    let l4 = l3.push(("render_width"@, decimal(p.render_width as nat)));
    lemma_lines_after_push("\n\n[presentation]"@, l3, "render_width"@, decimal(p.render_width as nat));
    let l5 = l4.push(("render_height"@, decimal(p.render_height as nat)));
    lemma_lines_after_push("\n\n[presentation]"@, l4, "render_height"@, decimal(p.render_height as nat));
    let l6 = l5.push(("output_mode_width"@, decimal(p.output_mode_width as nat)));
    lemma_lines_after_push("\n\n[presentation]"@, l5, "output_mode_width"@, decimal(p.output_mode_width as nat));
    let l7 = l6.push(("output_mode_height"@, decimal(p.output_mode_height as nat)));
    lemma_lines_after_push("\n\n[presentation]"@, l6, "output_mode_height"@, decimal(p.output_mode_height as nat));
    let l8 = l7.push(("output_scale"@, decimal(p.output_scale as nat)));
    lemma_lines_after_push("\n\n[presentation]"@, l7, "output_scale"@, decimal(p.output_scale as nat));
    let l9 = l8.push(("fractional_scale"@, fractional_scale));
    lemma_lines_after_push("\n\n[presentation]"@, l8, "fractional_scale"@, fractional_scale);
    let l10 = l9.push(("scale_mode"@, "\""@ + scale_mode_text(p.scale_mode) + "\""@));
    lemma_lines_after_push("\n\n[presentation]"@, l9, "scale_mode"@, "\""@ + scale_mode_text(p.scale_mode) + "\""@);
    let l11 = l10.push(("paused"@, bool_word(p.paused)));
    lemma_lines_after_push("\n\n[presentation]"@, l10, "paused"@, bool_word(p.paused));
    let l12 = l11.push(("viewport_width"@, decimal(p.viewport_width as nat)));
    lemma_lines_after_push("\n\n[presentation]"@, l11, "viewport_width"@, decimal(p.viewport_width as nat));
    let l13 = l12.push(("viewport_height"@, decimal(p.viewport_height as nat)));
    lemma_lines_after_push("\n\n[presentation]"@, l12, "viewport_height"@, decimal(p.viewport_height as nat));
    let fixed = lines_after("\n\n[presentation]"@, l13);
    match viewport_source {
        Some((x, y, width, height)) => {
        let l14 = l13.push(("viewport_source_x"@, x));
        lemma_lines_after_push("\n\n[presentation]"@, l13, "viewport_source_x"@, x);
        let l15 = l14.push(("viewport_source_y"@, y));
        lemma_lines_after_push("\n\n[presentation]"@, l14, "viewport_source_y"@, y);
        let l16 = l15.push(("viewport_source_width"@, width));
        lemma_lines_after_push("\n\n[presentation]"@, l15, "viewport_source_width"@, width);
        let l17 = l16.push(("viewport_source_height"@, height));
        lemma_lines_after_push("\n\n[presentation]"@, l16, "viewport_source_height"@, height);
            assert(presentation_table(p, fractional_scale, viewport_source) =~= lines_after("\n\n[presentation]"@, l17));
            lemma_lines_after_has_each("\n\n[presentation]"@, l17, 0);
            assert(l17[0] == ("configured"@, bool_word(p.configured)));
            lemma_lines_after_has_each("\n\n[presentation]"@, l17, 1);
            assert(l17[1] == ("logical_width"@, decimal(p.logical_width as nat)));
            lemma_lines_after_has_each("\n\n[presentation]"@, l17, 2);
            assert(l17[2] == ("logical_height"@, decimal(p.logical_height as nat)));
            lemma_lines_after_has_each("\n\n[presentation]"@, l17, 3);
            assert(l17[3] == ("render_width"@, decimal(p.render_width as nat)));
            lemma_lines_after_has_each("\n\n[presentation]"@, l17, 4);
            assert(l17[4] == ("render_height"@, decimal(p.render_height as nat)));
            lemma_lines_after_has_each("\n\n[presentation]"@, l17, 5);
            assert(l17[5] == ("output_mode_width"@, decimal(p.output_mode_width as nat)));
            lemma_lines_after_has_each("\n\n[presentation]"@, l17, 6);
            assert(l17[6] == ("output_mode_height"@, decimal(p.output_mode_height as nat)));
            lemma_lines_after_has_each("\n\n[presentation]"@, l17, 7);
            assert(l17[7] == ("output_scale"@, decimal(p.output_scale as nat)));
            lemma_lines_after_has_each("\n\n[presentation]"@, l17, 8);
            assert(l17[8] == ("fractional_scale"@, fractional_scale));
            lemma_lines_after_has_each("\n\n[presentation]"@, l17, 9);
            assert(l17[9] == ("scale_mode"@, "\""@ + scale_mode_text(p.scale_mode) + "\""@));
            lemma_lines_after_has_each("\n\n[presentation]"@, l17, 10);
            assert(l17[10] == ("paused"@, bool_word(p.paused)));
            lemma_lines_after_has_each("\n\n[presentation]"@, l17, 11);
            assert(l17[11] == ("viewport_width"@, decimal(p.viewport_width as nat)));
            lemma_lines_after_has_each("\n\n[presentation]"@, l17, 12);
            assert(l17[12] == ("viewport_height"@, decimal(p.viewport_height as nat)));
            lemma_lines_after_has_each("\n\n[presentation]"@, l17, 13);
            assert(l17[13] == ("viewport_source_x"@, x));
            lemma_lines_after_has_each("\n\n[presentation]"@, l17, 14);
            assert(l17[14] == ("viewport_source_y"@, y));
            lemma_lines_after_has_each("\n\n[presentation]"@, l17, 15);
            assert(l17[15] == ("viewport_source_width"@, width));
            lemma_lines_after_has_each("\n\n[presentation]"@, l17, 16);
            assert(l17[16] == ("viewport_source_height"@, height));
        },
        None => {
            assert(presentation_table(p, fractional_scale, viewport_source) =~= fixed);
            lemma_lines_after_has_each("\n\n[presentation]"@, l13, 0);
            assert(l13[0] == ("configured"@, bool_word(p.configured)));
            lemma_lines_after_has_each("\n\n[presentation]"@, l13, 1);
            assert(l13[1] == ("logical_width"@, decimal(p.logical_width as nat)));
            lemma_lines_after_has_each("\n\n[presentation]"@, l13, 2);
            assert(l13[2] == ("logical_height"@, decimal(p.logical_height as nat)));
            lemma_lines_after_has_each("\n\n[presentation]"@, l13, 3);
            assert(l13[3] == ("render_width"@, decimal(p.render_width as nat)));
            lemma_lines_after_has_each("\n\n[presentation]"@, l13, 4);
            assert(l13[4] == ("render_height"@, decimal(p.render_height as nat)));
            lemma_lines_after_has_each("\n\n[presentation]"@, l13, 5);
            assert(l13[5] == ("output_mode_width"@, decimal(p.output_mode_width as nat)));
            lemma_lines_after_has_each("\n\n[presentation]"@, l13, 6);
            assert(l13[6] == ("output_mode_height"@, decimal(p.output_mode_height as nat)));
            lemma_lines_after_has_each("\n\n[presentation]"@, l13, 7);
            assert(l13[7] == ("output_scale"@, decimal(p.output_scale as nat)));
            lemma_lines_after_has_each("\n\n[presentation]"@, l13, 8);
            assert(l13[8] == ("fractional_scale"@, fractional_scale));
            lemma_lines_after_has_each("\n\n[presentation]"@, l13, 9);
            assert(l13[9] == ("scale_mode"@, "\""@ + scale_mode_text(p.scale_mode) + "\""@));
            lemma_lines_after_has_each("\n\n[presentation]"@, l13, 10);
            assert(l13[10] == ("paused"@, bool_word(p.paused)));
            lemma_lines_after_has_each("\n\n[presentation]"@, l13, 11);
            assert(l13[11] == ("viewport_width"@, decimal(p.viewport_width as nat)));
            lemma_lines_after_has_each("\n\n[presentation]"@, l13, 12);
            assert(l13[12] == ("viewport_height"@, decimal(p.viewport_height as nat)));
        },
    }
}

/// Each frame line shows its own counter or fact.
pub proof fn lemma_frame_lines_show_each_field(stats: FrameStats)
    ensures
        has_line(frame_lines(stats), "last_present_backend"@, "\""@ + present_backend_word(stats.last_present_backend) + "\""@),
        has_line(frame_lines(stats), "last_frame_width"@, decimal(stats.last_frame_width as nat)),
        has_line(frame_lines(stats), "last_frame_height"@, decimal(stats.last_frame_height as nat)),
        has_line(frame_lines(stats), "in_flight_buffers"@, decimal(stats.in_flight_count as nat)),
        has_line(frame_lines(stats), "acquired"@, decimal(stats.acquired as nat)),
        has_line(frame_lines(stats), "presented"@, decimal(stats.presented as nat)),
        has_line(frame_lines(stats), "skipped_by_backpressure"@, decimal(stats.skipped_by_backpressure as nat)),
        has_line(frame_lines(stats), "no_frame_polls"@, decimal(stats.no_frame_polls as nat)),
        has_line(frame_lines(stats), "released_buffers"@, decimal(stats.released_buffers as nat)),
        has_line(frame_lines(stats), "last_error"@, debug_quoted(match stats.last_error { Some(e) => e@, None => Seq::empty() })),
{
    let l0 = Seq::<(Seq<char>, Seq<char>)>::empty();
    let l1 = l0.push(("last_present_backend"@, "\""@ + present_backend_word(stats.last_present_backend) + "\""@));
    lemma_lines_after_push(Seq::<char>::empty(), l0, "last_present_backend"@, "\""@ + present_backend_word(stats.last_present_backend) + "\""@);
    let l2 = l1.push(("last_frame_width"@, decimal(stats.last_frame_width as nat)));
    lemma_lines_after_push(Seq::<char>::empty(), l1, "last_frame_width"@, decimal(stats.last_frame_width as nat));
    let l3 = l2.push(("last_frame_height"@, decimal(stats.last_frame_height as nat)));
    lemma_lines_after_push(Seq::<char>::empty(), l2, "last_frame_height"@, decimal(stats.last_frame_height as nat));
    let l4 = l3.push(("in_flight_buffers"@, decimal(stats.in_flight_count as nat)));
    lemma_lines_after_push(Seq::<char>::empty(), l3, "in_flight_buffers"@, decimal(stats.in_flight_count as nat));
    let l5 = l4.push(("acquired"@, decimal(stats.acquired as nat)));
    lemma_lines_after_push(Seq::<char>::empty(), l4, "acquired"@, decimal(stats.acquired as nat));
    let l6 = l5.push(("presented"@, decimal(stats.presented as nat)));
    lemma_lines_after_push(Seq::<char>::empty(), l5, "presented"@, decimal(stats.presented as nat));
    let l7 = l6.push(("skipped_by_backpressure"@, decimal(stats.skipped_by_backpressure as nat)));
    lemma_lines_after_push(Seq::<char>::empty(), l6, "skipped_by_backpressure"@, decimal(stats.skipped_by_backpressure as nat));
    let l8 = l7.push(("no_frame_polls"@, decimal(stats.no_frame_polls as nat)));
    lemma_lines_after_push(Seq::<char>::empty(), l7, "no_frame_polls"@, decimal(stats.no_frame_polls as nat));
    let l9 = l8.push(("released_buffers"@, decimal(stats.released_buffers as nat)));
    lemma_lines_after_push(Seq::<char>::empty(), l8, "released_buffers"@, decimal(stats.released_buffers as nat));
    let l10 = l9.push(("last_error"@, debug_quoted(match stats.last_error { Some(e) => e@, None => Seq::empty() })));
    lemma_lines_after_push(Seq::<char>::empty(), l9, "last_error"@, debug_quoted(match stats.last_error { Some(e) => e@, None => Seq::empty() }));
    assert(lines_after(Seq::<char>::empty(), l10) =~= frame_lines(stats));
    lemma_lines_after_has_each(Seq::<char>::empty(), l10, 0);
    assert(l10[0] == ("last_present_backend"@, "\""@ + present_backend_word(stats.last_present_backend) + "\""@));
    lemma_lines_after_has_each(Seq::<char>::empty(), l10, 1);
    assert(l10[1] == ("last_frame_width"@, decimal(stats.last_frame_width as nat)));
    lemma_lines_after_has_each(Seq::<char>::empty(), l10, 2);
    assert(l10[2] == ("last_frame_height"@, decimal(stats.last_frame_height as nat)));
    lemma_lines_after_has_each(Seq::<char>::empty(), l10, 3);
    assert(l10[3] == ("in_flight_buffers"@, decimal(stats.in_flight_count as nat)));
    lemma_lines_after_has_each(Seq::<char>::empty(), l10, 4);
    assert(l10[4] == ("acquired"@, decimal(stats.acquired as nat)));
    lemma_lines_after_has_each(Seq::<char>::empty(), l10, 5);
    assert(l10[5] == ("presented"@, decimal(stats.presented as nat)));
    lemma_lines_after_has_each(Seq::<char>::empty(), l10, 6);
    assert(l10[6] == ("skipped_by_backpressure"@, decimal(stats.skipped_by_backpressure as nat)));
    lemma_lines_after_has_each(Seq::<char>::empty(), l10, 7);
    assert(l10[7] == ("no_frame_polls"@, decimal(stats.no_frame_polls as nat)));
    lemma_lines_after_has_each(Seq::<char>::empty(), l10, 8);
    assert(l10[8] == ("released_buffers"@, decimal(stats.released_buffers as nat)));
    lemma_lines_after_has_each(Seq::<char>::empty(), l10, 9);
    assert(l10[9] == ("last_error"@, debug_quoted(match stats.last_error { Some(e) => e@, None => Seq::empty() })));
}

/// Each line of the `[orchestrator]` table shows its own fact: the backend
/// and phase names in quotes, that outputs run separately, the generation,
/// the quoted source, and the quoted error when there is one.
pub proof fn lemma_orchestrator_table_shows_each_field(
    state: LifecycleModel,
    quoted_source: Seq<char>,
    quoted_error: Option<Seq<char>>,
)
    ensures
        has_line(orchestrator_table(state, quoted_source, quoted_error), "backend"@, "\""@ + backend_config_name(state.backend) + "\""@),
        has_line(orchestrator_table(state, quoted_source, quoted_error), "phase"@, "\""@ + phase_name(state.phase) + "\""@),
        has_line(orchestrator_table(state, quoted_source, quoted_error), "multi_output"@, "true"@),
        has_line(orchestrator_table(state, quoted_source, quoted_error), "generation"@, decimal(state.generation as nat)),
        has_line(orchestrator_table(state, quoted_source, quoted_error), "source"@, quoted_source),
        quoted_error matches Some(e) ==> has_line(orchestrator_table(state, quoted_source, quoted_error), "error"@, e),
{
    reveal_strlit("[orchestrator]\nbackend = \"");
    reveal_strlit("\"\nphase = \"");
    reveal_strlit("\"\nmulti_output = true\ngeneration = ");
    reveal_strlit("\nsource = ");
    reveal_strlit("\nerror = ");
    reveal_strlit("\n");
    reveal_strlit(" = ");
    reveal_strlit("\"");
    reveal_strlit("[orchestrator]");
    reveal_strlit("backend");
    reveal_strlit("phase");
    reveal_strlit("multi_output");
    reveal_strlit("true");
    reveal_strlit("generation");
    reveal_strlit("source");
    reveal_strlit("error");
    assert("[orchestrator]\nbackend = \""@ =~= "[orchestrator]"@ + "\n"@ + "backend"@ + " = "@ + "\""@);
    assert("\"\nphase = \""@ =~= "\""@ + "\n"@ + "phase"@ + " = "@ + "\""@);
    assert("\"\nmulti_output = true\ngeneration = "@ =~= "\""@ + "\n"@ + "multi_output"@ + " = "@ + "true"@ + "\n"@ + "generation"@ + " = "@);
    assert("\nsource = "@ =~= "\n"@ + "source"@ + " = "@);
    assert("\nerror = "@ =~= "\n"@ + "error"@ + " = "@);
    let l0 = Seq::<(Seq<char>, Seq<char>)>::empty();
    let l1 = l0.push(("backend"@, "\""@ + backend_config_name(state.backend) + "\""@));
    lemma_lines_after_push("[orchestrator]"@, l0, "backend"@, "\""@ + backend_config_name(state.backend) + "\""@);
    let l2 = l1.push(("phase"@, "\""@ + phase_name(state.phase) + "\""@));
    lemma_lines_after_push("[orchestrator]"@, l1, "phase"@, "\""@ + phase_name(state.phase) + "\""@);
    let l3 = l2.push(("multi_output"@, "true"@));
    lemma_lines_after_push("[orchestrator]"@, l2, "multi_output"@, "true"@);
    let l4 = l3.push(("generation"@, decimal(state.generation as nat)));
    lemma_lines_after_push("[orchestrator]"@, l3, "generation"@, decimal(state.generation as nat));
    let l5 = l4.push(("source"@, quoted_source));
    lemma_lines_after_push("[orchestrator]"@, l4, "source"@, quoted_source);
    let table = orchestrator_table(state, quoted_source, quoted_error);
    match quoted_error {
        Some(e) => {
            let l6 = l5.push(("error"@, e));
            lemma_lines_after_push("[orchestrator]"@, l5, "error"@, e);
            assert(table =~= lines_after("[orchestrator]"@, l6));
            lemma_lines_after_has_each("[orchestrator]"@, l6, 0);
            assert(l6[0] == ("backend"@, "\""@ + backend_config_name(state.backend) + "\""@));
            lemma_lines_after_has_each("[orchestrator]"@, l6, 1);
            assert(l6[1] == ("phase"@, "\""@ + phase_name(state.phase) + "\""@));
            lemma_lines_after_has_each("[orchestrator]"@, l6, 2);
            assert(l6[2] == ("multi_output"@, "true"@));
            lemma_lines_after_has_each("[orchestrator]"@, l6, 3);
            assert(l6[3] == ("generation"@, decimal(state.generation as nat)));
            lemma_lines_after_has_each("[orchestrator]"@, l6, 4);
            assert(l6[4] == ("source"@, quoted_source));
            lemma_lines_after_has_each("[orchestrator]"@, l6, 5);
            assert(l6[5] == ("error"@, e));
        },
        None => {
            assert(table =~= lines_after("[orchestrator]"@, l5));
            lemma_lines_after_has_each("[orchestrator]"@, l5, 0);
            assert(l5[0] == ("backend"@, "\""@ + backend_config_name(state.backend) + "\""@));
            lemma_lines_after_has_each("[orchestrator]"@, l5, 1);
            assert(l5[1] == ("phase"@, "\""@ + phase_name(state.phase) + "\""@));
            lemma_lines_after_has_each("[orchestrator]"@, l5, 2);
            assert(l5[2] == ("multi_output"@, "true"@));
            lemma_lines_after_has_each("[orchestrator]"@, l5, 3);
            assert(l5[3] == ("generation"@, decimal(state.generation as nat)));
            lemma_lines_after_has_each("[orchestrator]"@, l5, 4);
            assert(l5[4] == ("source"@, quoted_source));
        },
    }
}

} // verus!
