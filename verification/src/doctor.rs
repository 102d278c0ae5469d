use vstd::prelude::*;
use vstd::string::StringExecFns;

use crate::backend::{backend_config_name, backend_name, BackendKind};
use crate::install::views_of;
use crate::text::{decimal, decimal_text, is_blank, str_equals, text_is_blank};

verus! {

/// The version of the first advertised global with this interface name.
pub open spec fn global_version(globals: Seq<(Seq<char>, u32)>, interface: Seq<char>) -> Option<u32>
    decreases globals.len(),
{
    if globals.len() == 0 {
        None
    } else if globals[0].0 == interface {
        Some(globals[0].1)
    } else {
        global_version(globals.drop_first(), interface)
    }
}

pub open spec fn global_views(globals: Seq<(String, u32)>) -> Seq<(Seq<char>, u32)> {
    globals.map_values(|g: (String, u32)| (g.0@, g.1))
}

/// The report line for one Wayland global: its version when advertised, else
/// an error for a required global and a warning for an optional one.
pub open spec fn global_check_line(interface: Seq<char>, required: bool, version: Option<u32>) -> Seq<char> {
    match version {
        Some(v) => "OK global "@ + interface + " = v"@ + decimal(v as nat),
        None => (if required { "ERR global "@ } else { "WARN global "@ }) + interface + " = missing"@,
    }
}

fn find_global(globals: &[(String, u32)], interface: &str) -> (version: Option<u32>)
    ensures
        version == global_version(global_views(globals@), interface@),
{
    let ghost all = global_views(globals@);
    assert(all.skip(0) =~= all);
    for i in 0..globals.len()
        invariant
            all == global_views(globals@),
            global_version(all.skip(i as int), interface@) == global_version(all, interface@),
    {
        assert(all.skip(i as int).drop_first() =~= all.skip(i + 1));
        if str_equals(globals[i].0.as_str(), interface) {
            return Some(globals[i].1);
        }
    }
    assert(all.skip(globals@.len() as int) =~= Seq::<(Seq<char>, u32)>::empty());
    None
}

/// Appends the report line for the global `interface` among the advertised
/// `(interface, version)` pairs.
pub fn push_global_check(lines: &mut Vec<String>, globals: &[(String, u32)], interface: &str, required: bool)
    ensures
        views_of(final(lines)@) == views_of(old(lines)@).push(
            global_check_line(interface@, required, global_version(global_views(globals@), interface@)),
        ),
{
    let line = match find_global(globals, interface) {
        Some(version) => "OK global ".to_string().concat(interface).concat(" = v").concat(
            decimal_text(version as u64).as_str(),
        ),
        None => {
            let head = if required { "ERR global " } else { "WARN global " };
            head.to_string().concat(interface).concat(" = missing")
        },
    };
    lines.push(line);
    assert(views_of(lines@) =~= views_of(old(lines)@).push(
        global_check_line(interface@, required, global_version(global_views(globals@), interface@)),
    ));
}

/// The globals a backend cannot run without.
pub open spec fn required_global_names(backend: BackendKind) -> Seq<Seq<char>> {
    seq![
        "wl_compositor"@,
        "wl_shm"@,
        match backend {
            BackendKind::LayerShell => "zwlr_layer_shell_v1"@,
            BackendKind::Gnome => "xdg_wm_base"@,
        },
    ]
}

pub fn required_globals(backend: BackendKind) -> (names: Vec<&'static str>)
    ensures
        names@.map_values(|n: &'static str| n@) == required_global_names(backend),
{
    let mut names: Vec<&'static str> = Vec::new();
    names.push("wl_compositor");
    names.push("wl_shm");
    match backend {
        BackendKind::LayerShell => names.push("zwlr_layer_shell_v1"),
        BackendKind::Gnome => names.push("xdg_wm_base"),
    }
    assert(names@.map_values(|n: &'static str| n@) =~= required_global_names(backend));
    names
}

/// The globals that only improve presentation.
pub open spec fn optional_global_names() -> Seq<Seq<char>> {
    seq!["zwp_linux_dmabuf_v1"@, "wp_viewporter"@, "wp_fractional_scale_manager_v1"@]
}

pub fn optional_globals() -> (names: Vec<&'static str>)
    ensures
        names@.map_values(|n: &'static str| n@) == optional_global_names(),
{
    let mut names: Vec<&'static str> = Vec::new();
    names.push("zwp_linux_dmabuf_v1");
    names.push("wp_viewporter");
    names.push("wp_fractional_scale_manager_v1");
    assert(names@.map_values(|n: &'static str| n@) =~= optional_global_names());
    names
}

/// The first report line: the backend in use.
pub fn backend_check(backend: BackendKind) -> (line: String)
    ensures
        line@ == "OK backend = "@ + backend_config_name(backend),
{
    "OK backend = ".to_string().concat(backend_name(backend))
}

/// Where the configuration came from, or a warning that the built-in
/// defaults are in use.
pub fn config_check(loaded_from: Option<&str>) -> (line: String)
    ensures
        line@ == match loaded_from {
            Some(path) => "OK config = "@ + path@,
            None => "WARN config = using built-in defaults"@,
        },
{
    match loaded_from {
        Some(path) => "OK config = ".to_string().concat(path),
        None => "WARN config = using built-in defaults".to_string(),
    }
}

pub open spec fn bool_text(value: bool) -> Seq<char> {
    if value {
        "true"@
    } else {
        "false"@
    }
}

/// The three report lines about `renderer.options_json`: whether it is set,
/// its length, and whether it parses (an error when it does not).
pub fn push_options_json_checks(lines: &mut Vec<String>, present: bool, len: usize, valid: bool)
    ensures
        views_of(final(lines)@) == views_of(old(lines)@) + seq![
            "OK renderer.options_json_present = "@ + bool_text(present),
            "OK renderer.options_json_len = "@ + decimal(len as nat),
            if valid {
                "OK renderer.options_json_valid = true"@
            } else {
                "ERR renderer.options_json_valid = false"@
            },
        ],
{
    let shown = if present { "true" } else { "false" };
    lines.push("OK renderer.options_json_present = ".to_string().concat(shown));
    lines.push("OK renderer.options_json_len = ".to_string().concat(decimal_text(len as u64).as_str()));
    if valid {
        lines.push("OK renderer.options_json_valid = true".to_string());
    } else {
        lines.push("ERR renderer.options_json_valid = false".to_string());
    }
    assert(views_of(lines@) =~= views_of(old(lines)@) + seq![
        "OK renderer.options_json_present = "@ + bool_text(present),
        "OK renderer.options_json_len = "@ + decimal(len as nat),
        if valid {
            "OK renderer.options_json_valid = true"@
        } else {
            "ERR renderer.options_json_valid = false"@
        },
    ]);
}

/// The report line about NVIDIA PRIME render offload, under which the
/// runtime falls back to shared-memory frames.
pub fn nvidia_prime_check(detected: bool) -> (line: &'static str)
    ensures
        line@ == (if detected {
            "WARN nvidia_prime_offload = detected; runtime will force SHM fallback"@
        } else {
            "OK nvidia_prime_offload = not detected"@
        }),
{
    if detected {
        "WARN nvidia_prime_offload = detected; runtime will force SHM fallback"
    } else {
        "OK nvidia_prime_offload = not detected"
    }
}

/// An environment flag is on when it is set, not empty and not `0`.
pub open spec fn flag_on(value: Option<Seq<char>>) -> bool {
    match value {
        Some(v) => v.len() > 0 && v != "0"@,
        None => false,
    }
}

pub fn env_flag_enabled(value: Option<&str>) -> (enabled: bool)
    ensures
        enabled == flag_on(match value {
            Some(v) => Some(v@),
            None => None,
        }),
{
    match value {
        Some(v) => !v.is_empty() && !str_equals(v, "0"),
        None => false,
    }
}

/// NVIDIA PRIME render offload is on when `__NV_PRIME_RENDER_OFFLOAD` is
/// enabled or `__VK_LAYER_NV_optimus` is `NVIDIA_only` (the values of the two
/// variables, `None` where unset).
pub fn nvidia_prime_detected(render_offload: Option<&str>, vk_layer: Option<&str>) -> (detected: bool)
    ensures
        detected == (flag_on(match render_offload {
            Some(v) => Some(v@),
            None => None,
        }) || (vk_layer matches Some(v) && v@ == "NVIDIA_only"@)),
{
    if env_flag_enabled(render_offload) {
        return true;
    }
    match vk_layer {
        Some(v) => str_equals(v, "NVIDIA_only"),
        None => false,
    }
}

/// The report line for the wallpaper source: an error when it is blank or its
/// expanded path is not a directory.
pub fn source_check(source: &str, expanded: &str, is_dir: bool) -> (line: String)
    ensures
        line@ == (if is_blank(source@) {
            "ERR renderer.source = empty"@
        } else if is_dir {
            "OK renderer.source = "@ + expanded@
        } else {
            "ERR renderer.source = missing "@ + expanded@
        }),
{
    if text_is_blank(source) {
        "ERR renderer.source = empty".to_string()
    } else if is_dir {
        "OK renderer.source = ".to_string().concat(expanded)
    } else {
        "ERR renderer.source = missing ".to_string().concat(expanded)
    }
}

/// The report line for the Wallpaper Engine assets: a blank setting falls
/// back to the discovered installation (`discovered_assets`, its `assets`
/// directory) with a warning, and is an error when none was found; a set path
/// must be a directory.
pub fn assets_check(assets_path: &str, expanded: &str, is_dir: bool, discovered_assets: Option<&str>) -> (line: String)
    ensures
        line@ == (if is_blank(assets_path@) {
            match discovered_assets {
                Some(d) => "WARN renderer.assets_path = auto-discovered "@ + d@,
                None => "ERR renderer.assets_path = empty and auto-discovery failed"@,
            }
        } else if is_dir {
            "OK renderer.assets_path = "@ + expanded@
        } else {
            "ERR renderer.assets_path = missing "@ + expanded@
        }),
{
    if text_is_blank(assets_path) {
        match discovered_assets {
            Some(d) => "WARN renderer.assets_path = auto-discovered ".to_string().concat(d),
            None => "ERR renderer.assets_path = empty and auto-discovery failed".to_string(),
        }
    } else if is_dir {
        "OK renderer.assets_path = ".to_string().concat(expanded)
    } else {
        "ERR renderer.assets_path = missing ".to_string().concat(expanded)
    }
}

/// The report line for the renderer library that would be loaded.
pub fn renderer_library_check(path: &str, is_file: bool) -> (line: String)
    ensures
        line@ == (if is_file {
            "OK renderer_library = "@ + path@
        } else {
            "ERR renderer_library = missing "@ + path@
        }),
{
    if is_file {
        "OK renderer_library = ".to_string().concat(path)
    } else {
        "ERR renderer_library = missing ".to_string().concat(path)
    }
}

/// The report line for the directory that holds the renderer cache, given
/// the error of creating it, if any.
pub fn cache_parent_check(parent: &str, error: Option<&str>) -> (line: String)
    ensures
        line@ == match error {
            None => "OK renderer.cache_path_parent = "@ + parent@,
            Some(e) => "ERR renderer.cache_path_parent = "@ + parent@ + " ("@ + e@ + ")"@,
        },
{
    match error {
        None => "OK renderer.cache_path_parent = ".to_string().concat(parent),
        Some(e) => "ERR renderer.cache_path_parent = ".to_string().concat(parent).concat(" (").concat(e).concat(")"),
    }
}

} // verus!
