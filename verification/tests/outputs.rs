use we_layerd::outputs::{output_global_is_named, output_names, sort_by_global_name, OutputNamesError};

#[test]
fn output_names_follow_registry_order() {
    let probed = vec![
        (42, "HDMI-A-1".to_string()),
        (7, "eDP-1".to_string()),
        (19, "DP-2".to_string()),
    ];
    assert_eq!(output_names(probed), Ok(vec!["eDP-1".to_string(), "DP-2".to_string(), "HDMI-A-1".to_string()]));
}

#[test]
fn no_named_output_is_an_error() {
    assert_eq!(output_names(Vec::new()), Err(OutputNamesError::NoNamedOutputs));
}

#[test]
fn only_version_four_outputs_have_names() {
    assert!(!output_global_is_named(3));
    assert!(output_global_is_named(4));
    assert!(output_global_is_named(5));
}

#[test]
fn sorting_keeps_every_output() {
    let sorted = sort_by_global_name(vec![
        (3, "c".to_string()),
        (1, "a".to_string()),
        (3, "d".to_string()),
        (2, "b".to_string()),
    ]);
    let keys: Vec<u32> = sorted.iter().map(|(key, _)| *key).collect();
    assert_eq!(keys, vec![1, 2, 3, 3]);
    let mut names: Vec<String> = sorted.into_iter().map(|(_, name)| name).collect();
    names.sort();
    assert_eq!(names, vec!["a", "b", "c", "d"]);
}
