use vstd::prelude::*;
use vstd::string::StringExecFns;

use crate::text::{decimal, decimal_text};

verus! {

/// The two ways the daemon can put a wallpaper behind the desktop.
#[derive(Debug, Clone, Copy, PartialEq, Eq, Structural)]
pub enum BackendKind {
    LayerShell,
    Gnome,
}

pub open spec fn backend_config_name(kind: BackendKind) -> Seq<char> {
    match kind {
        BackendKind::LayerShell => "layer_shell"@,
        BackendKind::Gnome => "gnome"@,
    }
}

/// The two backends have different configuration names.
pub proof fn lemma_backend_names_differ()
    ensures
        backend_config_name(BackendKind::LayerShell) != backend_config_name(BackendKind::Gnome),
{
    reveal_strlit("layer_shell");
    reveal_strlit("gnome");
    assert(backend_config_name(BackendKind::LayerShell).len() != backend_config_name(BackendKind::Gnome).len());
}

impl BackendKind {
    /// The name of the backend in configuration files and status output.
    pub fn as_config_str(self) -> (name: &'static str)
        ensures
            name@ == backend_config_name(self),
    {
        match self {
            BackendKind::LayerShell => "layer_shell",
            BackendKind::Gnome => "gnome",
        }
    }
}

/// The backend name shown in status output.
pub fn backend_name(backend: BackendKind) -> (name: &'static str)
    ensures
        name@ == backend_config_name(backend),
{
    backend.as_config_str()
}

/// What a backend can do.
#[derive(Debug, Clone, Copy, PartialEq, Eq, Structural)]
pub struct BackendCapabilities {
    pub supports_dmabuf: bool,
    pub supports_shm: bool,
    pub supports_pointer_input: bool,
    pub needs_external_extension: bool,
    pub owns_wayland_surface: bool,
}

/// The capabilities of each backend: both present DMA-BUF and shared-memory
/// frames and forward pointer input; only GNOME needs its Shell extension, and
/// only layer-shell owns a Wayland surface.
pub open spec fn capabilities_of(kind: BackendKind) -> BackendCapabilities {
    BackendCapabilities {
        supports_dmabuf: true,
        supports_shm: true,
        supports_pointer_input: true,
        needs_external_extension: kind == BackendKind::Gnome,
        owns_wayland_surface: kind == BackendKind::LayerShell,
    }
}

/// The wlr layer-shell backend.
#[derive(Debug, Clone, Copy, Default)]
pub struct LayerShellBackend;

impl LayerShellBackend {
    pub fn kind(&self) -> (kind: BackendKind)
        ensures
            kind == BackendKind::LayerShell,
    {
        BackendKind::LayerShell
    }

    pub fn capabilities(&self) -> (capabilities: BackendCapabilities)
        ensures
            capabilities == capabilities_of(BackendKind::LayerShell),
    {
        BackendCapabilities {
            supports_dmabuf: true,
            supports_shm: true,
            supports_pointer_input: true,
            needs_external_extension: false,
            owns_wayland_surface: true,
        }
    }
}

/// The GNOME Shell window-bridge backend.
#[derive(Debug, Clone, Copy, Default)]
pub struct GnomeBackend;

impl GnomeBackend {
    pub fn kind(&self) -> (kind: BackendKind)
        ensures
            kind == BackendKind::Gnome,
    {
        BackendKind::Gnome
    }

    pub fn capabilities(&self) -> (capabilities: BackendCapabilities)
        ensures
            capabilities == capabilities_of(BackendKind::Gnome),
    {
        BackendCapabilities {
            supports_dmabuf: true,
            supports_shm: true,
            supports_pointer_input: true,
            needs_external_extension: true,
            owns_wayland_surface: false,
        }
    }
}

/// The report given whenever the GNOME Shell extension cannot be reached.
pub fn extension_unreachable_error() -> (message: &'static str)
    ensures
        message@ == "GNOME backend selected but we-layerd GNOME Shell extension is not reachable"@,
{
    "GNOME backend selected but we-layerd GNOME Shell extension is not reachable"
}

/// Whether `value` holds "gnome" at `i`, ignoring ASCII case.
pub open spec fn gnome_at(value: Seq<char>, i: int) -> bool {
    &&& 0 <= i && i + 5 <= value.len()
    &&& (value[i] == 'g' || value[i] == 'G')
    &&& (value[i + 1] == 'n' || value[i + 1] == 'N')
    &&& (value[i + 2] == 'o' || value[i + 2] == 'O')
    &&& (value[i + 3] == 'm' || value[i + 3] == 'M')
    &&& (value[i + 4] == 'e' || value[i + 4] == 'E')
}

pub open spec fn mentions_gnome(value: Seq<char>) -> bool {
    exists|i: int| #[trigger] gnome_at(value, i)
}

/// The session is GNOME when any of the desktop names that are set
/// (`XDG_CURRENT_DESKTOP`, `XDG_SESSION_DESKTOP`, `DESKTOP_SESSION`) mentions
/// "gnome" in any ASCII case.
pub open spec fn names_gnome(desktop_names: Seq<Option<String>>) -> bool {
    exists|j: int| 0 <= j < desktop_names.len() && #[trigger] name_mentions_gnome(desktop_names[j])
}

pub open spec fn name_mentions_gnome(name: Option<String>) -> bool {
    match name {
        Some(name) => mentions_gnome(name@),
        None => false,
    }
}

fn text_mentions_gnome(value: &str) -> (found: bool)
    ensures
        found == mentions_gnome(value@),
{
    let ghost s = value@;
    let mut chars: Vec<char> = Vec::new();
    for c in it: value.chars()
        invariant
            it.seq() == s,
            chars@ == s.take(it.index() as int),
    {
        chars.push(c);
        assert(chars@ =~= s.take(it.index() + 1));
    }
    assert(chars@ =~= s);
    let n = chars.len();
    if n < 5 {
        assert(!mentions_gnome(s));
        return false;
    }
    let mut i: usize = 0;
    while i <= n - 5
        invariant
            chars@ == s,
            s == value@,
            n == s.len(),
            n >= 5,
            i <= n - 4,
            forall|k: int| 0 <= k < i ==> !gnome_at(s, k),
        decreases n - i,
    {
        let g = chars[i];
        let nn = chars[i + 1];
        let o = chars[i + 2];
        let m = chars[i + 3];
        let e = chars[i + 4];
        if (g == 'g' || g == 'G') && (nn == 'n' || nn == 'N') && (o == 'o' || o == 'O')
            && (m == 'm' || m == 'M') && (e == 'e' || e == 'E') {
            assert(gnome_at(s, i as int));
            return true;
        }
        i = i + 1;
    }
    assert forall|k: int| #[trigger] gnome_at(s, k) implies false by {
        assert(k < i);
    }
    false
}

/// Whether the desktop session is GNOME, from the values of
/// `XDG_CURRENT_DESKTOP`, `XDG_SESSION_DESKTOP` and `DESKTOP_SESSION`
/// (`None` where a variable is unset).
pub fn is_gnome_session(desktop_names: &[Option<String>]) -> (gnome: bool)
    ensures
        gnome == names_gnome(desktop_names@),
{
    let mut j: usize = 0;
    while j < desktop_names.len()
        invariant
            j <= desktop_names@.len(),
            forall|k: int| 0 <= k < j ==> !#[trigger] name_mentions_gnome(desktop_names@[k]),
        decreases desktop_names@.len() - j,
    {
        match &desktop_names[j] {
            Some(name) => {
                if text_mentions_gnome(name.as_str()) {
                    assert(name_mentions_gnome(desktop_names@[j as int]));
                    return true;
                }
            },
            None => {},
        }
        j = j + 1;
    }
    false
}

/// The application id of the renderer windows that the GNOME Shell extension
/// places behind the desktop.
pub const RENDERER_APP_ID: &'static str = "io.github.weLayerd.Renderer";

/// The window that the GNOME Shell extension is asked to treat as wallpaper.
#[derive(Debug, Clone)]
pub struct RegisteredWindow {
    pub id: u32,
    pub pid: u32,
    pub title: String,
    pub wm_class: String,
}

/// The window registration of the renderer process `pid`: the pid doubles as
/// id, the title is `we-layerd-renderer-<pid>`.
pub fn registered_window(pid: u32) -> (window: RegisteredWindow)
    ensures
        window.id == pid,
        window.pid == pid,
        window.title@ == "we-layerd-renderer-"@ + decimal(pid as nat),
        window.wm_class@ == "io.github.weLayerd.Renderer"@,
{
    RegisteredWindow {
        id: pid,
        pid,
        title: "we-layerd-renderer-".to_string().concat(decimal_text(pid as u64).as_str()),
        wm_class: RENDERER_APP_ID.to_string(),
    }
}

} // verus!
