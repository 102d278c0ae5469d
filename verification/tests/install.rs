use std::path::{Path, PathBuf};

use we_layerd::install::{
    choose_renderer_library, effective_prefix, install_plan, expand_tilde, join_path, parse_prefix_args,
    renderer_library_candidates, resolve_install_root, uninstall_targets, PrefixArgsError, GNOME_EXTENSION_UUID,
};

#[test]
fn uninstall_accepts_the_same_prefix_option_as_install() {
    let args = parse_prefix_args(vec!["--prefix".into(), "/opt/we-layerd".into()], Some("/home/user"));
    assert_eq!(args.map(|prefix| prefix.map(PathBuf::from)), Ok(Some(PathBuf::from("/opt/we-layerd"))));
}

#[test]
fn uninstall_targets_match_every_artifact_installed_by_xtask() {
    let root = Path::new("/opt/we-layerd");
    assert_eq!(
        uninstall_targets("/opt/we-layerd").into_iter().map(PathBuf::from).collect::<Vec<_>>(),
        vec![
            root.join("bin/we-layerd"),
            root.join("bin/we-gui"),
            root.join("lib/libwallpaper-engine-renderer.so"),
            root.join("lib/we-cef-helper"),
            root.join("share/gnome-shell/extensions").join(GNOME_EXTENSION_UUID),
        ]
    );
}

#[test]
fn prefix_arguments_are_validated() {
    assert_eq!(parse_prefix_args(vec![], None), Ok(None));
    assert_eq!(
        parse_prefix_args(vec!["--prefix".into()], None),
        Err(PrefixArgsError::MissingPrefixValue)
    );
    assert_eq!(
        parse_prefix_args(vec!["--force".into()], None),
        Err(PrefixArgsError::UnsupportedArgument("--force".to_string()))
    );
    assert_eq!(
        parse_prefix_args(vec!["--prefix".into(), "relative".into()], None),
        Err(PrefixArgsError::RelativePrefix("relative".to_string()))
    );
    assert_eq!(
        parse_prefix_args(vec!["--prefix".into(), "~/apps".into()], Some("/home/user")),
        Ok(Some("/home/user/apps".to_string()))
    );
    assert_eq!(
        parse_prefix_args(
            vec!["--prefix".into(), "/a".into(), "--prefix".into(), "/b".into()],
            None
        ),
        Ok(Some("/b".to_string()))
    );
}

#[test]
fn paths_join_like_std() {
    for (base, component) in [("/opt", "bin"), ("/opt/", "bin"), ("", "bin"), ("/opt", "/usr")] {
        assert_eq!(PathBuf::from(join_path(base, component)), Path::new(base).join(component));
    }
}

#[test]
fn tilde_expands_to_home() {
    assert_eq!(expand_tilde("~", Some("/home/user")), "/home/user");
    assert_eq!(expand_tilde("~/renderer-cache", Some("/home/user")), "/home/user/renderer-cache");
    assert_eq!(expand_tilde("~/x", None), "~/x");
    assert_eq!(expand_tilde("~other", Some("/home/user")), "~other");
}

#[test]
fn install_roots_and_prefixes() {
    assert_eq!(effective_prefix(Some("/usr"), Some("/opt".to_string()), None), "/usr");
    assert_eq!(effective_prefix(None, Some("/opt".to_string()), None), "/opt");
    assert_eq!(effective_prefix(None, None, Some("/home/user")), "/home/user/.local");
    assert_eq!(resolve_install_root("/usr", Some("/tmp/pkg")), "/tmp/pkg/usr");
    assert_eq!(resolve_install_root("/usr", Some("")), "/usr");
    assert_eq!(resolve_install_root("/usr", None), "/usr");
}

#[test]
fn renderer_library_candidates_follow_the_search_order() {
    let candidates =
        renderer_library_candidates(Some("/opt/we"), Some("/home/me"), Some("/home/me/.local/bin"));
    assert_eq!(
        candidates,
        vec![
            "/opt/we/lib/libwallpaper-engine-renderer.so".to_string(),
            "/home/me/.local/bin/lib/libwallpaper-engine-renderer.so".to_string(),
            "/home/me/.local/bin/../lib/libwallpaper-engine-renderer.so".to_string(),
            "/home/me/.local/bin/libwallpaper-engine-renderer.so".to_string(),
            "/usr/local/lib/libwallpaper-engine-renderer.so".to_string(),
            "/usr/local/lib64/libwallpaper-engine-renderer.so".to_string(),
            "/usr/lib/libwallpaper-engine-renderer.so".to_string(),
            "/usr/lib64/libwallpaper-engine-renderer.so".to_string(),
        ]
    );
    assert_eq!(renderer_library_candidates(None, None, None).len(), 4);
}

#[test]
fn the_configured_renderer_library_wins_then_the_first_existing_candidate() {
    let candidates = vec!["/a.so".to_string(), "/b.so".to_string(), "/c.so".to_string()];
    assert_eq!(choose_renderer_library("/cfg.so", true, &candidates, &[true, true, true]), "/cfg.so");
    assert_eq!(choose_renderer_library("/cfg.so", false, &candidates, &[false, true, true]), "/b.so");
    assert_eq!(choose_renderer_library("/cfg.so", false, &candidates, &[false, false, false]), "/cfg.so");
}

#[test]
fn installation_copies_artifacts_to_exactly_the_uninstall_targets() {
    let plan = install_plan("/src/we", "/src/we/ext/we-layerd@aromatic", "/usr/local");
    let sources: Vec<&str> = plan.iter().map(|(source, _)| source.as_str()).collect();
    assert_eq!(
        sources,
        vec![
            "/src/we/target/release/we-layerd",
            "/src/we/target/release/we-gui",
            "/src/we/target/we-renderer-upstream/install/lib/libwallpaper-engine-renderer.so",
            "/src/we/target/we-renderer-upstream/install/lib/we-cef-helper",
            "/src/we/ext/we-layerd@aromatic",
        ]
    );
    let destinations: Vec<String> = plan.into_iter().map(|(_, destination)| destination).collect();
    assert_eq!(destinations, uninstall_targets("/usr/local"));
}

#[test]
fn expand_tilde_expands_home_prefix() {
    let home = "/home/tester";
    let expanded = expand_tilde("~/renderer-cache", Some(home));
    assert_eq!(PathBuf::from(expanded), Path::new(home).join("renderer-cache"));
}

#[test]
fn destdir_keeps_the_prefix_below_its_root_as_path_strip_prefix_does() {
    for prefix in ["/usr", "//opt", "/./usr/local", "/usr/local/", "/usr/.", "/", "/a//b/./c", "/../x"] {
        let expected = PathBuf::from("/tmp/pkg").join(Path::new(prefix).strip_prefix("/").expect("absolute"));
        assert_eq!(
            PathBuf::from(resolve_install_root(prefix, Some("/tmp/pkg"))),
            expected,
            "prefix {prefix}"
        );
        assert_eq!(
            resolve_install_root(prefix, Some("/tmp/pkg")),
            expected.to_string_lossy(),
            "prefix {prefix}"
        );
    }
    assert_eq!(resolve_install_root("//opt", Some("/tmp/pkg")), "/tmp/pkg/opt");
}
