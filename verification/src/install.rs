use vstd::prelude::*;
use vstd::string::{StrSliceExecFns, StringExecFns};

use crate::text::{chars_of, str_equals};

verus! {

/// Directory name of the GNOME Shell extension.
pub const GNOME_EXTENSION_UUID: &'static str = "we-layerd@aromatic";

/// Calls `str::strip_prefix`: the rest of `text` after `prefix` when `text`
/// starts with it, as std documents.
#[verifier::external_body]
fn str_strip_prefix<'a>(text: &'a str, prefix: &str) -> (rest: Option<&'a str>)
    ensures
        match rest {
            Some(r) => text@ == prefix@ + r@,
            None => !(exists|r: Seq<char>| text@ == prefix@ + r),
        },
{
    text.strip_prefix(prefix)
}

/// A Unix path is absolute when it starts with `/`.
pub open spec fn is_absolute(path: Seq<char>) -> bool {
    path.len() > 0 && path[0] == '/'
}

/// `base` joined with the relative or absolute path `component`, as
/// `PathBuf::push` does on Unix: an absolute component replaces the base, and
/// a separator is inserted unless the base is empty or already ends in one.
pub open spec fn joined(base: Seq<char>, component: Seq<char>) -> Seq<char> {
    if is_absolute(component) {
        component
    } else if base.len() == 0 || base.last() == '/' {
        base + component
    } else {
        base + "/"@ + component
    }
}

proof fn lemma_prefix_view(text: Seq<char>, rest: Seq<char>)
    requires
        text == "/"@ + rest,
    ensures
        is_absolute(text),
{
    reveal_strlit("/");
    assert(text[0] == ("/"@)[0]);
}

fn is_absolute_path(path: &str) -> (absolute: bool)
    ensures
        absolute == is_absolute(path@),
{
    proof {
        reveal_strlit("/");
    }
    match str_strip_prefix(path, "/") {
        Some(rest) => {
            proof {
                lemma_prefix_view(path@, rest@);
            }
            true
        },
        None => {
            proof {
                if is_absolute(path@) {
                    assert(path@ =~= "/"@ + path@.drop_first());
                }
            }
            false
        },
    }
}

fn ends_with_separator(path: &str) -> (ends: bool)
    ensures
        ends == (path@.len() > 0 && path@.last() == '/'),
{
    let mut last: Option<char> = None;
    let ghost s = path@;
    for c in it: path.chars()
        invariant
            it.seq() == s,
            it.index() == 0 ==> last is None,
            it.index() > 0 ==> last == Some(s[it.index() - 1]),
    {
        last = Some(c);
    }
    match last {
        Some(c) => c == '/',
        None => false,
    }
}

/// Joins two path texts as `Path::join` does on Unix.
pub fn join_path(base: &str, component: &str) -> (path: String)
    ensures
        path@ == joined(base@, component@),
{
    if is_absolute_path(component) {
        return component.to_string();
    }
    if base.is_empty() || ends_with_separator(base) {
        return base.to_string().concat(component);
    }
    proof {
        reveal_strlit("/");
    }
    base.to_string().concat("/").concat(component)
}

/// `~` and paths under `~/` name the home directory when it is known.
pub open spec fn tilde_expanded(raw: Seq<char>, home: Option<Seq<char>>) -> Seq<char> {
    match home {
        Some(h) => if raw == "~"@ {
            h
        } else if exists|rest: Seq<char>| raw == "~/"@ + rest {
            joined(h, raw.subrange(2, raw.len() as int))
        } else {
            raw
        },
        None => raw,
    }
}

pub fn expand_tilde(raw: &str, home: Option<&str>) -> (path: String)
    ensures
        path@ == tilde_expanded(raw@, match home {
            Some(h) => Some(h@),
            None => None,
        }),
{
    let home = match home {
        Some(h) => h,
        None => return raw.to_string(),
    };
    if str_equals(raw, "~") {
        return home.to_string();
    }
    match str_strip_prefix(raw, "~/") {
        Some(rest) => {
            proof {
                reveal_strlit("~/");
                reveal_strlit("~");
                assert(rest@ =~= raw@.subrange(2, raw@.len() as int));
            }
            join_path(home, rest)
        },
        None => raw.to_string(),
    }
}

/// Why the installer's arguments were refused.
#[derive(Debug, Clone, PartialEq, Eq)]
pub enum PrefixArgsError {
    /// `--prefix` was the last argument.
    MissingPrefixValue,
    /// An argument other than `--prefix`.
    UnsupportedArgument(String),
    /// The prefix is not an absolute path once `~` is expanded.
    RelativePrefix(String),
}

pub enum PrefixArgsModel {
    MissingPrefixValue,
    UnsupportedArgument(Seq<char>),
    RelativePrefix(Seq<char>),
}

impl View for PrefixArgsError {
    type V = PrefixArgsModel;

    open spec fn view(&self) -> PrefixArgsModel {
        match self {
            PrefixArgsError::MissingPrefixValue => PrefixArgsModel::MissingPrefixValue,
            PrefixArgsError::UnsupportedArgument(a) => PrefixArgsModel::UnsupportedArgument(a@),
            PrefixArgsError::RelativePrefix(p) => PrefixArgsModel::RelativePrefix(p@),
        }
    }
}

/// Reads `--prefix VALUE` options from the front; the last one wins and the
/// first argument that is not such an option is refused.
pub open spec fn prefix_option(args: Seq<Seq<char>>, home: Option<Seq<char>>) -> Result<
    Option<Seq<char>>,
    PrefixArgsModel,
>
    decreases args.len(),
{
    if args.len() == 0 {
        Ok(None)
    } else if args[0] == "--prefix"@ {
        if args.len() < 2 {
            Err(PrefixArgsModel::MissingPrefixValue)
        } else {
            match prefix_option(args.skip(2), home) {
                Ok(None) => Ok(Some(tilde_expanded(args[1], home))),
                other => other,
            }
        }
    } else {
        Err(PrefixArgsModel::UnsupportedArgument(args[0]))
    }
}

/// The prefix the installer is given, which must be absolute.
pub open spec fn parsed_prefix(args: Seq<Seq<char>>, home: Option<Seq<char>>) -> Result<
    Option<Seq<char>>,
    PrefixArgsModel,
> {
    match prefix_option(args, home) {
        Ok(Some(p)) => if is_absolute(p) {
            Ok(Some(p))
        } else {
            Err(PrefixArgsModel::RelativePrefix(p))
        },
        other => other,
    }
}

pub open spec fn views_of(args: Seq<String>) -> Seq<Seq<char>> {
    args.map_values(|a: String| a@)
}

pub open spec fn option_view(value: Option<&str>) -> Option<Seq<char>> {
    match value {
        Some(v) => Some(v@),
        None => None,
    }
}

fn parse_from(args: &Vec<String>, start: usize, home: Option<&str>) -> (parsed: Result<Option<String>, PrefixArgsError>)
    requires
        start <= args@.len(),
    ensures
        match parsed {
            Ok(Some(p)) => prefix_option(views_of(args@).skip(start as int), option_view(home)) == Ok::<Option<Seq<char>>, PrefixArgsModel>(Some(p@)),
            Ok(None) => prefix_option(views_of(args@).skip(start as int), option_view(home)) == Ok::<Option<Seq<char>>, PrefixArgsModel>(None),
            Err(e) => prefix_option(views_of(args@).skip(start as int), option_view(home)) == Err::<Option<Seq<char>>, PrefixArgsModel>(e@),
        },
    decreases args@.len() - start,
{
    let ghost rest = views_of(args@).skip(start as int);
    if start == args.len() {
        return Ok(None);
    }
    assert(rest[0] == args@[start as int]@);
    if str_equals(args[start].as_str(), "--prefix") {
        if start + 1 >= args.len() {
            return Err(PrefixArgsError::MissingPrefixValue);
        }
        assert(rest[1] == args@[start + 1]@);
        assert(rest.skip(2) =~= views_of(args@).skip(start + 2));
        let later = parse_from(args, start + 2, home);
        match later {
            Ok(None) => Ok(Some(expand_tilde(args[start + 1].as_str(), home))),
            other => other,
        }
    } else {
        Err(PrefixArgsError::UnsupportedArgument(args[start].clone()))
    }
}

/// Parses the installer's arguments: an optional `--prefix PATH`, with `~`
/// expanded against `home`.
pub fn parse_prefix_args(args: Vec<String>, home: Option<&str>) -> (parsed: Result<Option<String>, PrefixArgsError>)
    ensures
        match parsed {
            Ok(Some(p)) => parsed_prefix(views_of(args@), option_view(home)) == Ok::<Option<Seq<char>>, PrefixArgsModel>(Some(p@)),
            Ok(None) => parsed_prefix(views_of(args@), option_view(home)) == Ok::<Option<Seq<char>>, PrefixArgsModel>(None),
            Err(e) => parsed_prefix(views_of(args@), option_view(home)) == Err::<Option<Seq<char>>, PrefixArgsModel>(e@),
        },
{
    assert(views_of(args@).skip(0) =~= views_of(args@));
    match parse_from(&args, 0, home) {
        Ok(Some(prefix)) => if is_absolute_path(prefix.as_str()) {
            Ok(Some(prefix))
        } else {
            Err(PrefixArgsError::RelativePrefix(prefix))
        },
        other => other,
    }
}

/// The prefix to install to: the one given, else the one the renderer build
/// recorded, else `~/.local`.
pub fn effective_prefix(explicit_prefix: Option<&str>, configured_prefix: Option<String>, home: Option<&str>) -> (prefix: String)
    ensures
        prefix@ == match explicit_prefix {
            Some(p) => p@,
            None => match configured_prefix {
                Some(c) => c@,
                None => tilde_expanded("~/.local"@, option_view(home)),
            },
        },
{
    match explicit_prefix {
        Some(p) => p.to_string(),
        None => match configured_prefix {
            Some(c) => c,
            None => expand_tilde("~/.local", home),
        },
    }
}

/// Every path the installer creates under an install root.
pub open spec fn installed_paths(root: Seq<char>) -> Seq<Seq<char>> {
    seq![
        joined(root, "bin/we-layerd"@),
        joined(root, "bin/we-gui"@),
        joined(root, "lib/libwallpaper-engine-renderer.so"@),
        joined(root, "lib/we-cef-helper"@),
        joined(joined(root, "share/gnome-shell/extensions"@), "we-layerd@aromatic"@),
    ]
}

/// The four installed files followed by the installed extension directory.
pub fn uninstall_targets(install_root: &str) -> (targets: Vec<String>)
    ensures
        views_of(targets@) == installed_paths(install_root@),
{
    let extensions = join_path(install_root, "share/gnome-shell/extensions");
    let mut targets: Vec<String> = Vec::new();
    targets.push(join_path(install_root, "bin/we-layerd"));
    targets.push(join_path(install_root, "bin/we-gui"));
    targets.push(join_path(install_root, "lib/libwallpaper-engine-renderer.so"));
    targets.push(join_path(install_root, "lib/we-cef-helper"));
    targets.push(join_path(extensions.as_str(), GNOME_EXTENSION_UUID));
    assert(views_of(targets@) =~= installed_paths(install_root@));
    targets
}

/// Where the installer copies from: the two release binaries and the staged
/// renderer library and CEF helper in the workspace, then the GNOME Shell
/// extension's source directory.
pub open spec fn install_sources(workspace: Seq<char>, extension_source: Seq<char>) -> Seq<Seq<char>> {
    let stage = joined(workspace, "target/we-renderer-upstream/install"@);
    seq![
        joined(workspace, "target/release/we-layerd"@),
        joined(workspace, "target/release/we-gui"@),
        joined(stage, "lib/libwallpaper-engine-renderer.so"@),
        joined(stage, "lib/we-cef-helper"@),
        extension_source,
    ]
}

/// Where the installer copies to, in the same order as its sources.
pub open spec fn install_destinations(root: Seq<char>) -> Seq<Seq<char>> {
    let extensions = joined(root, "share/gnome-shell/extensions"@);
    seq![
        joined(root, "bin/we-layerd"@),
        joined(root, "bin/we-gui"@),
        joined(root, "lib/libwallpaper-engine-renderer.so"@),
        joined(root, "lib/we-cef-helper"@),
        joined(extensions, "we-layerd@aromatic"@),
    ]
}

/// The copies an installation makes, as (source, destination) pairs: four
/// artifacts, then the extension tree.
pub fn install_plan(workspace_root: &str, extension_source: &str, install_root: &str) -> (plan: Vec<(String, String)>)
    ensures
        plan@.len() == 5,
        forall|i: int| 0 <= i < 5 ==> #[trigger] plan@[i].0@ == install_sources(workspace_root@, extension_source@)[i]
            && plan@[i].1@ == install_destinations(install_root@)[i],
{
    let stage = join_path(workspace_root, "target/we-renderer-upstream/install");
    let extensions = join_path(install_root, "share/gnome-shell/extensions");
    let mut plan: Vec<(String, String)> = Vec::new();
    plan.push((join_path(workspace_root, "target/release/we-layerd"), join_path(install_root, "bin/we-layerd")));
    plan.push((join_path(workspace_root, "target/release/we-gui"), join_path(install_root, "bin/we-gui")));
    plan.push((
        join_path(stage.as_str(), "lib/libwallpaper-engine-renderer.so"),
        join_path(install_root, "lib/libwallpaper-engine-renderer.so"),
    ));
    plan.push((join_path(stage.as_str(), "lib/we-cef-helper"), join_path(install_root, "lib/we-cef-helper")));
    plan.push((extension_source.to_string(), join_path(extensions.as_str(), GNOME_EXTENSION_UUID)));
    plan
}

/// Uninstalling removes exactly what installing created: the destinations of
/// an installation are the uninstall targets of the same root, in order.
pub proof fn lemma_uninstall_removes_every_installed_path(root: Seq<char>)
    ensures
        install_destinations(root) == installed_paths(root),
{
    assert(install_destinations(root) =~= installed_paths(root));
}

/// Drops leading empty and `.` components (with their separators), as
/// `Path` does with the start of a relative remainder.
pub open spec fn trim_front(path: Seq<char>) -> Seq<char>
    decreases path.len(),
{
    if path.len() > 0 && path[0] == '/' {
        trim_front(path.drop_first())
    } else if path.len() == 1 && path[0] == '.' {
        Seq::empty()
    } else if path.len() >= 2 && path[0] == '.' && path[1] == '/' {
        trim_front(path.drop_first())
    } else {
        path
    }
}

/// Drops trailing empty and `.` components (with their separators).
pub open spec fn trim_back(path: Seq<char>) -> Seq<char>
    decreases path.len(),
{
    if path.len() > 0 && path.last() == '/' {
        trim_back(path.drop_last())
    } else if path.len() == 1 && path[0] == '.' {
        Seq::empty()
    } else if path.len() >= 2 && path.last() == '.' && path[path.len() - 2] == '/' {
        trim_back(path.drop_last())
    } else {
        path
    }
}

/// What is left of an absolute path once its root is taken off, as
/// `Path::strip_prefix("/")` gives it: the components after the root, without
/// empty or `.` components at either end.
pub open spec fn below_root(path: Seq<char>) -> Seq<char> {
    trim_back(trim_front(path.drop_first()))
}

fn relative_to_root(path: &str) -> (relative: String)
    requires
        is_absolute(path@),
    ensures
        relative@ == below_root(path@),
{
    let chars = chars_of(path);
    let ghost s = path@;
    let n = chars.len();
    let mut i: usize = 1;
    assert(s.subrange(1, n as int) =~= s.drop_first());
    while i < n
        invariant
            chars@ == s,
            n == s.len(),
            1 <= i <= n,
            trim_front(s.subrange(i as int, n as int)) == trim_front(s.drop_first()),
        ensures
            1 <= i <= n,
            trim_front(s.subrange(i as int, n as int)) == trim_front(s.drop_first()),
            trim_front(s.subrange(i as int, n as int)) == s.subrange(i as int, n as int),
        decreases n - i,
    {
        let t = Ghost(s.subrange(i as int, n as int));
        if chars[i] == '/' {
            assert(t@.drop_first() =~= s.subrange(i + 1, n as int));
            i = i + 1;
        } else if chars[i] == '.' && i + 1 == n {
            assert(t@.len() == 1);
            assert(s.subrange(n as int, n as int) =~= Seq::<char>::empty());
            i = n;
        } else if chars[i] == '.' && chars[i + 1] == '/' {
            assert(t@.drop_first() =~= s.subrange(i + 1, n as int));
            i = i + 1;
        } else {
            proof {
                assert(t@[0] == s[i as int]);
                if t@.len() >= 2 {
                    assert(t@[1] == s[i + 1]);
                }
            }
            break;
        }
    }
    let ghost front = trim_front(s.drop_first());
    let mut j: usize = n;
    assert(s.subrange(i as int, j as int) == front);
    while j > i
        invariant
            chars@ == s,
            n == s.len(),
            i <= j <= n,
            trim_back(s.subrange(i as int, j as int)) == trim_back(front),
        ensures
            i <= j <= n,
            trim_back(s.subrange(i as int, j as int)) == trim_back(front),
            trim_back(s.subrange(i as int, j as int)) == s.subrange(i as int, j as int),
        decreases j,
    {
        let t = Ghost(s.subrange(i as int, j as int));
        if chars[j - 1] == '/' {
            assert(t@.drop_last() =~= s.subrange(i as int, j - 1));
            j = j - 1;
        } else if chars[j - 1] == '.' && (j - 1 == i || chars[j - 2] == '/') {
            proof {
                if j - 1 == i {
                    assert(t@.len() == 1);
                    assert(s.subrange(i as int, i as int) =~= Seq::<char>::empty());
                } else {
                    assert(t@[t@.len() - 2] == s[j - 2]);
                    assert(t@.drop_last() =~= s.subrange(i as int, j - 1));
                }
            }
            j = j - 1;
        } else {
            proof {
                assert(t@.last() == s[j - 1]);
                if t@.len() >= 2 {
                    assert(t@[t@.len() - 2] == s[j - 2]);
                }
            }
            break;
        }
    }
    path.substring_char(i, j).to_string()
}

/// Where files go: under `DESTDIR` when it is set and not empty (the prefix
/// below its root, joined onto it), else the prefix itself.
pub fn resolve_install_root(prefix: &str, destdir: Option<&str>) -> (root: String)
    requires
        destdir matches Some(d) && d@.len() > 0 ==> is_absolute(prefix@),
    ensures
        root@ == match destdir {
            Some(d) => if d@.len() > 0 {
                joined(d@, below_root(prefix@))
            } else {
                prefix@
            },
            None => prefix@,
        },
{
    match destdir {
        Some(d) => if !d.is_empty() {
            let relative = relative_to_root(prefix);
            join_path(d, relative.as_str())
        } else {
            prefix.to_string()
        },
        None => prefix.to_string(),
    }
}

/// Where the renderer library is looked for when the configured path does
/// not exist, in order: under the build's install root, under
/// `~/.local/bin`, beside the running executable (in `../lib` and in its own
/// directory), then the system library directories.
pub open spec fn renderer_library_search(
    install_root: Option<Seq<char>>,
    home: Option<Seq<char>>,
    bin_dir: Option<Seq<char>>,
) -> Seq<Seq<char>> {
    (match install_root {
        Some(root) => seq![joined(root, "lib/libwallpaper-engine-renderer.so"@)],
        None => Seq::empty(),
    }) + (match home {
        Some(home) => seq![joined(home, ".local/bin/lib/libwallpaper-engine-renderer.so"@)],
        None => Seq::empty(),
    }) + (match bin_dir {
        Some(dir) => seq![
            joined(dir, "../lib/libwallpaper-engine-renderer.so"@),
            joined(dir, "libwallpaper-engine-renderer.so"@),
        ],
        None => Seq::empty(),
    }) + seq![
        "/usr/local/lib/libwallpaper-engine-renderer.so"@,
        "/usr/local/lib64/libwallpaper-engine-renderer.so"@,
        "/usr/lib/libwallpaper-engine-renderer.so"@,
        "/usr/lib64/libwallpaper-engine-renderer.so"@,
    ]
}

pub fn renderer_library_candidates(install_root: Option<&str>, home: Option<&str>, bin_dir: Option<&str>) -> (candidates: Vec<String>)
    ensures
        views_of(candidates@) == renderer_library_search(option_view(install_root), option_view(home), option_view(bin_dir)),
{
    let mut candidates: Vec<String> = Vec::new();
    let ghost first: Seq<Seq<char>> = match option_view(install_root) {
        Some(root) => seq![joined(root, "lib/libwallpaper-engine-renderer.so"@)],
        None => Seq::empty(),
    };
    let ghost second: Seq<Seq<char>> = match option_view(home) {
        Some(home) => seq![joined(home, ".local/bin/lib/libwallpaper-engine-renderer.so"@)],
        None => Seq::empty(),
    };
    let ghost third: Seq<Seq<char>> = match option_view(bin_dir) {
        Some(dir) => seq![
            joined(dir, "../lib/libwallpaper-engine-renderer.so"@),
            joined(dir, "libwallpaper-engine-renderer.so"@),
        ],
        None => Seq::empty(),
    };
    if let Some(root) = install_root {
        candidates.push(join_path(root, "lib/libwallpaper-engine-renderer.so"));
    }
    assert(views_of(candidates@) =~= first);
    if let Some(home) = home {
        candidates.push(join_path(home, ".local/bin/lib/libwallpaper-engine-renderer.so"));
    }
    assert(views_of(candidates@) =~= first + second);
    if let Some(dir) = bin_dir {
        candidates.push(join_path(dir, "../lib/libwallpaper-engine-renderer.so"));
        candidates.push(join_path(dir, "libwallpaper-engine-renderer.so"));
    }
    assert(views_of(candidates@) =~= first + second + third);
    candidates.push("/usr/local/lib/libwallpaper-engine-renderer.so".to_string());
    candidates.push("/usr/local/lib64/libwallpaper-engine-renderer.so".to_string());
    candidates.push("/usr/lib/libwallpaper-engine-renderer.so".to_string());
    candidates.push("/usr/lib64/libwallpaper-engine-renderer.so".to_string());
    assert(views_of(candidates@) =~= renderer_library_search(option_view(install_root), option_view(home), option_view(bin_dir)));
    candidates
}

/// The index of the first candidate that exists, if any does.
pub open spec fn first_existing(exists: Seq<bool>) -> Option<int> {
    if exists|i: int| 0 <= i < exists.len() && exists[i] {
        Some(choose|i: int| 0 <= i < exists.len() && exists[i] && forall|k: int| 0 <= k < i ==> !exists[k])
    } else {
        None
    }
}

/// The renderer library to load: the configured path when it exists, else
/// the first candidate that exists, else the configured path anyway (so that
/// the load reports it). `exists[i]` says whether `candidates[i]` exists.
pub fn choose_renderer_library(configured: &str, configured_exists: bool, candidates: &[String], exists: &[bool]) -> (library: String)
    requires
        candidates.len() == exists.len(),
    ensures
        configured_exists ==> library@ == configured@,
        !configured_exists ==> match first_existing(exists@) {
            Some(i) => library@ == candidates@[i]@,
            None => library@ == configured@,
        },
{
    if configured_exists {
        return configured.to_string();
    }
    let mut i: usize = 0;
    while i < candidates.len()
        invariant
            !configured_exists,
            candidates.len() == exists.len(),
            i <= exists.len(),
            forall|k: int| 0 <= k < i ==> !exists@[k],
        decreases candidates.len() - i,
    {
        if exists[i] {
            proof {
                let w = i as int;
                assert(0 <= w < exists@.len() && exists@[w] && forall|k: int| 0 <= k < w ==> !exists@[k]);
                let c = choose|j: int| 0 <= j < exists@.len() && exists@[j] && forall|k: int| 0 <= k < j ==> !exists@[k];
                assert(c == w) by {
                    if c < w {
                        assert(!exists@[c]);
                    } else if c > w {
                        assert(!exists@[w]);
                    }
                }
            }
            return candidates[i].clone();
        }
        i = i + 1;
    }
    configured.to_string()
}

} // verus!
