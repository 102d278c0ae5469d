use we_layerd::integrations::RuleIntegration;
use we_layerd::rules::RuntimePolicy;

fn policies(list: &[(&str, bool, bool)]) -> Vec<(String, RuntimePolicy)> {
    list.iter()
        .map(|(name, pause, mute)| (name.to_string(), RuntimePolicy { pause: *pause, mute: *mute }))
        .collect()
}

#[test]
fn output_snapshot_uses_only_that_outputs_rule_policy() {
    let mut rules = RuleIntegration::new();
    rules.update(true, true, policies(&[("DP-1", true, false), ("HDMI-A-1", false, true)]), None);
    assert_eq!(rules.policy_for_output("DP-1"), RuntimePolicy { pause: true, mute: false });
    assert_eq!(rules.policy_for_output("HDMI-A-1"), RuntimePolicy { pause: false, mute: true });
    assert_eq!(rules.policy_for_output("eDP-1"), RuntimePolicy::default());
}

#[test]
fn policy_generation_moves_only_on_change() {
    let mut rules = RuleIntegration::new();
    assert_eq!(rules.generation(), 0);
    rules.update(true, true, policies(&[("DP-1", true, false)]), None);
    assert_eq!(rules.generation(), 1);
    rules.update(true, true, policies(&[("DP-1", true, false)]), Some("slow".to_string()));
    assert_eq!(rules.generation(), 1);
    rules.update(true, true, policies(&[("DP-1", false, false)]), None);
    assert_eq!(rules.generation(), 2);
    rules.update(false, false, Vec::new(), None);
    assert_eq!(rules.generation(), 3);
}
