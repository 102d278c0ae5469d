use vstd::prelude::*;
use crate::bytes::{ne_value, read_u32_ne};
use crate::text::{lemma_precedes_irreflexive, lemma_precedes_total, lemma_precedes_transitive, precedes, str_equals, str_precedes};

verus! {

/// What a window rule does to the wallpaper of the output the window is on.
#[derive(Debug, Clone, Copy, PartialEq, Eq, Structural)]
pub enum RuleAction {
    Keep,
    Mute,
    Pause,
}

impl Default for RuleAction {
    fn default() -> (action: Self)
        ensures
            action == RuleAction::Keep,
    {
        RuleAction::Keep
    }
}

/// The actions configured for focused, maximized and fullscreen windows.
#[derive(Debug, Clone, Copy, PartialEq, Eq, Structural)]
pub struct RuleSet {
    pub focused: RuleAction,
    pub maximized: RuleAction,
    pub fullscreen: RuleAction,
}

impl Default for RuleSet {
    fn default() -> (rules: Self)
        ensures
            rules == (RuleSet {
                focused: RuleAction::Keep,
                maximized: RuleAction::Keep,
                fullscreen: RuleAction::Keep,
            }),
    {
        RuleSet { focused: RuleAction::Keep, maximized: RuleAction::Keep, fullscreen: RuleAction::Keep }
    }
}

impl RuleSet {
    /// A rule set that never changes playback: every action is `Keep`.
    pub open spec fn spec_is_keep(self) -> bool {
        &&& self.focused == RuleAction::Keep
        &&& self.maximized == RuleAction::Keep
        &&& self.fullscreen == RuleAction::Keep
    }

    pub fn is_keep(self) -> (keep: bool)
        ensures
            keep == self.spec_is_keep(),
    {
        self.focused == RuleAction::Keep && self.maximized == RuleAction::Keep
            && self.fullscreen == RuleAction::Keep
    }
}

/// One foreign toplevel window as the rules see it: the outputs it is shown on
/// and its state flags.
#[derive(Debug, Clone, PartialEq, Eq)]
pub struct ToplevelActivity {
    pub outputs: Vec<String>,
    pub activated: bool,
    pub maximized: bool,
    pub fullscreen: bool,
}

/// The effect of the rules on one output.
#[derive(Debug, Clone, Copy, PartialEq, Eq, Structural)]
pub struct RuntimePolicy {
    pub pause: bool,
    pub mute: bool,
}

impl Default for RuntimePolicy {
    fn default() -> (policy: Self)
        ensures
            policy == (RuntimePolicy { pause: false, mute: false }),
    {
        RuntimePolicy { pause: false, mute: false }
    }
}

/// The toplevel is shown on the output named `name`.
pub open spec fn lists_output(toplevel: ToplevelActivity, name: Seq<char>) -> bool {
    exists|k: int| 0 <= k < toplevel.outputs@.len() && #[trigger] toplevel.outputs@[k]@ == name
}

/// One of the toplevel's states is configured with `action`.
pub open spec fn state_triggers(rules: RuleSet, toplevel: ToplevelActivity, action: RuleAction) -> bool {
    ||| toplevel.activated && rules.focused == action
    ||| toplevel.maximized && rules.maximized == action
    ||| toplevel.fullscreen && rules.fullscreen == action
}

/// Some toplevel on the output triggers `action`.
pub open spec fn output_triggers(
    rules: RuleSet,
    name: Seq<char>,
    toplevels: Seq<ToplevelActivity>,
    action: RuleAction,
) -> bool {
    exists|j: int|
        0 <= j < toplevels.len() && lists_output(#[trigger] toplevels[j], name) && state_triggers(
            rules,
            toplevels[j],
            action,
        )
}

/// The policy of an output: it is paused when a window on it triggers a pause
/// rule, and muted when a window on it triggers a mute rule. Both can hold.
pub open spec fn policy_for_output(
    rules: RuleSet,
    name: Seq<char>,
    toplevels: Seq<ToplevelActivity>,
) -> RuntimePolicy {
    RuntimePolicy {
        pause: output_triggers(rules, name, toplevels, RuleAction::Pause),
        mute: output_triggers(rules, name, toplevels, RuleAction::Mute),
    }
}

pub open spec fn applied_action(policy: RuntimePolicy, action: RuleAction) -> RuntimePolicy {
    match action {
        RuleAction::Keep => policy,
        RuleAction::Mute => RuntimePolicy { mute: true, ..policy },
        RuleAction::Pause => RuntimePolicy { pause: true, ..policy },
    }
}

fn apply_rule_action(policy: &mut RuntimePolicy, action: RuleAction)
    ensures
        *final(policy) == applied_action(*old(policy), action),
{
    match action {
        RuleAction::Keep => {},
        RuleAction::Mute => policy.mute = true,
        RuleAction::Pause => policy.pause = true,
    }
}

fn lists_output_exec(toplevel: &ToplevelActivity, name: &String) -> (listed: bool)
    ensures
        listed == lists_output(*toplevel, name@),
{
    let n = toplevel.outputs.len();
    for k in 0..n
        invariant
            n == toplevel.outputs@.len(),
            forall|m: int| 0 <= m < k ==> toplevel.outputs@[m]@ != name@,
    {
        if toplevel.outputs[k] == *name {
            assert(toplevel.outputs@[k as int]@ == name@);
            return true;
        }
    }
    false
}

/// The output names strictly increase (in the order of their characters), so
/// no output is listed twice, as in an ordered map keyed by output name.
pub open spec fn names_ascending(policies: Seq<(String, RuntimePolicy)>) -> bool {
    forall|i: int, j: int| 0 <= i < j < policies.len() ==> precedes(policies[i].0@, policies[j].0@)
}

/// Some entry is for the output named `name`.
pub open spec fn has_policy_for(policies: Seq<(String, RuntimePolicy)>, name: Seq<char>) -> bool {
    exists|i: int| 0 <= i < policies.len() && #[trigger] policies[i].0@ == name
}

/// Some output in the list is named `name`.
pub open spec fn names_output(outputs: Seq<String>, name: Seq<char>) -> bool {
    exists|k: int| 0 <= k < outputs.len() && #[trigger] outputs[k]@ == name
}

/// Every entry holds the policy of its output.
pub open spec fn policies_match(
    policies: Seq<(String, RuntimePolicy)>,
    rules: RuleSet,
    toplevels: Seq<ToplevelActivity>,
) -> bool {
    forall|i: int| 0 <= i < policies.len() ==> (#[trigger] policies[i]).1 == policy_for_output(rules, policies[i].0@, toplevels)
}

/// Adds the entry for `name` at its place in name order, unless the output is
/// listed already.
fn insert_policy(
    policies: &mut Vec<(String, RuntimePolicy)>,
    name: &String,
    policy: RuntimePolicy,
    Ghost(rules): Ghost<RuleSet>,
    Ghost(toplevels): Ghost<Seq<ToplevelActivity>>,
)
    requires
        names_ascending(old(policies)@),
        policies_match(old(policies)@, rules, toplevels),
        policy == policy_for_output(rules, name@, toplevels),
    ensures
        names_ascending(final(policies)@),
        policies_match(final(policies)@, rules, toplevels),
        forall|n: Seq<char>| #[trigger] has_policy_for(final(policies)@, n) <==> (has_policy_for(old(policies)@, n) || n == name@),
{
    let ghost before = policies@;
    let n = policies.len();
    let mut p: usize = 0;
    let mut searching = true;
    while searching && p < n
        invariant
            policies@ == before,
            n == before.len(),
            p <= n,
            forall|i: int| 0 <= i < p ==> precedes(#[trigger] before[i].0@, name@),
            !searching ==> p < n && !precedes(before[p as int].0@, name@),
        decreases n - p, if searching { 1int } else { 0int },
    {
        if str_precedes(policies[p].0.as_str(), name.as_str()) {
            p = p + 1;
        } else {
            searching = false;
        }
    }
    if p < n && str_equals(policies[p].0.as_str(), name.as_str()) {
        proof {
            assert forall|m: Seq<char>| #[trigger] has_policy_for(before, m) <==> (has_policy_for(before, m) || m == name@) by {
                if m == name@ {
                    assert(before[p as int].0@ == name@);
                }
            }
        }
        return;
    }
    proof {
        if p < n {
            lemma_precedes_total(before[p as int].0@, name@);
        }
    }
    policies.insert(p, (name.clone(), policy));
    proof {
        let after = policies@;
        assert(after == before.insert(p as int, (after[p as int].0, policy)));
        assert forall|i: int, j: int| 0 <= i < j < after.len() implies precedes(after[i].0@, after[j].0@) by {
            if j < p {
                assert(after[i] == before[i] && after[j] == before[j]);
            } else if j == p {
                assert(after[i] == before[i]);
            } else if i < p {
                assert(after[i] == before[i] && after[j] == before[j - 1]);
            } else if i == p {
                assert(after[j] == before[j - 1]);
                if j - 1 > p {
                    lemma_precedes_transitive(name@, before[p as int].0@, before[j - 1].0@);
                }
            } else {
                assert(after[i] == before[i - 1] && after[j] == before[j - 1]);
            }
        }
        assert forall|i: int| 0 <= i < after.len() implies (#[trigger] after[i]).1 == policy_for_output(rules, after[i].0@, toplevels) by {
            if i < p {
                assert(after[i] == before[i]);
            } else if i > p {
                assert(after[i] == before[i - 1]);
            }
        }
        assert forall|m: Seq<char>| #[trigger] has_policy_for(after, m) <==> (has_policy_for(before, m) || m == name@) by {
            if has_policy_for(after, m) {
                let i = choose|i: int| 0 <= i < after.len() && #[trigger] after[i].0@ == m;
                if i < p {
                    assert(after[i] == before[i]);
                } else if i > p {
                    assert(after[i] == before[i - 1]);
                }
            }
            if has_policy_for(before, m) {
                let i = choose|i: int| 0 <= i < before.len() && #[trigger] before[i].0@ == m;
                if i < p {
                    assert(after[i] == before[i]);
                } else {
                    assert(after[i + 1] == before[i]);
                }
            }
            if m == name@ {
                assert(after[p as int].0@ == name@);
            }
        }
    }
}

/// Computes the policy of every output, listed once each and ordered by
/// output name.
pub fn policies_for_outputs(
    rules: RuleSet,
    outputs: &[String],
    toplevels: &[ToplevelActivity],
) -> (policies: Vec<(String, RuntimePolicy)>)
    ensures
        names_ascending(policies@),
        policies_match(policies@, rules, toplevels@),
        forall|n: Seq<char>| #[trigger] has_policy_for(policies@, n) <==> names_output(outputs@, n),
{
    let mut policies: Vec<(String, RuntimePolicy)> = Vec::new();
    let n = outputs.len();
    for i in 0..n
        invariant
            n == outputs@.len(),
            names_ascending(policies@),
            policies_match(policies@, rules, toplevels@),
            forall|m: Seq<char>| #[trigger] has_policy_for(policies@, m) <==> names_output(outputs@.take(i as int), m),
    {
        let name = &outputs[i];
        let mut policy = RuntimePolicy { pause: false, mute: false };
        let t = toplevels.len();
        for j in 0..t
            invariant
                t == toplevels@.len(),
                name == outputs@[i as int],
                policy == policy_for_output(rules, name@, toplevels@.take(j as int)),
        {
            let toplevel = &toplevels[j];
            let ghost before = policy;
            if lists_output_exec(toplevel, name) {
                if toplevel.activated {
                    apply_rule_action(&mut policy, rules.focused);
                }
                if toplevel.maximized {
                    apply_rule_action(&mut policy, rules.maximized);
                }
                if toplevel.fullscreen {
                    apply_rule_action(&mut policy, rules.fullscreen);
                }
            }
            proof {
                let prev = toplevels@.take(j as int);
                let next = toplevels@.take(j + 1);
                assert(next[j as int] == *toplevel);
                assert forall|a: RuleAction|
                    output_triggers(rules, name@, next, a) == (output_triggers(
                        rules,
                        name@,
                        prev,
                        a,
                    ) || (lists_output(*toplevel, name@) && state_triggers(rules, *toplevel, a))) by {
                    if output_triggers(rules, name@, next, a) {
                        let w = choose|w: int|
                            0 <= w < next.len() && lists_output(#[trigger] next[w], name@)
                                && state_triggers(rules, next[w], a);
                        if w < j {
                            assert(prev[w] == next[w]);
                        }
                    }
                    if output_triggers(rules, name@, prev, a) {
                        let w = choose|w: int|
                            0 <= w < prev.len() && lists_output(#[trigger] prev[w], name@)
                                && state_triggers(rules, prev[w], a);
                        assert(prev[w] == next[w]);
                    }
                    if lists_output(*toplevel, name@) && state_triggers(rules, *toplevel, a) {
                        assert(lists_output(next[j as int], name@));
                    }
                }
            }
        }
        assert(toplevels@.take(t as int) =~= toplevels@);
        let ghost listed = policies@;
        insert_policy(&mut policies, name, policy, Ghost(rules), Ghost(toplevels@));
        proof {
            let prev = outputs@.take(i as int);
            let next = outputs@.take(i + 1);
            assert forall|m: Seq<char>| #[trigger] names_output(next, m) <==> (names_output(prev, m) || m == name@) by {
                if names_output(next, m) {
                    let k = choose|k: int| 0 <= k < next.len() && #[trigger] next[k]@ == m;
                    if k < i {
                        assert(prev[k] == next[k]);
                    }
                }
                if names_output(prev, m) {
                    let k = choose|k: int| 0 <= k < prev.len() && #[trigger] prev[k]@ == m;
                    assert(next[k] == prev[k]);
                }
                if m == name@ {
                    assert(next[i as int]@ == m);
                }
            }
            assert forall|m: Seq<char>| #[trigger] has_policy_for(policies@, m) <==> names_output(next, m) by {
                assert(has_policy_for(listed, m) <==> names_output(prev, m));
            }
        }
    }
    assert(outputs@.take(n as int) =~= outputs@);
    policies
}

/// Manual and rule-driven pause requests, as a value.
pub struct PauseModel {
    pub manual: bool,
    pub rule: bool,
}

impl PauseModel {
    pub open spec fn with_manual(self, paused: bool) -> PauseModel {
        PauseModel { manual: paused, ..self }
    }

    pub open spec fn with_rule(self, paused: bool) -> PauseModel {
        PauseModel { rule: paused, ..self }
    }

    /// The wallpaper is paused while either request stands.
    pub open spec fn effective(self) -> bool {
        self.manual || self.rule
    }
}

/// Manual and rule-driven pause requests, kept apart so that one never
/// cancels the other.
#[derive(Debug, Clone, Copy, PartialEq, Eq, Structural)]
pub struct PauseState {
    manual: bool,
    rule: bool,
}

impl View for PauseState {
    type V = PauseModel;

    closed spec fn view(&self) -> PauseModel {
        PauseModel { manual: self.manual, rule: self.rule }
    }
}

impl Default for PauseState {
    fn default() -> (state: Self)
        ensures
            state@ == (PauseModel { manual: false, rule: false }),
    {
        PauseState { manual: false, rule: false }
    }
}

impl PauseState {
    pub fn set_manual(&mut self, paused: bool)
        ensures
            final(self)@ == old(self)@.with_manual(paused),
    {
        self.manual = paused;
    }

    pub fn set_rule(&mut self, paused: bool)
        ensures
            final(self)@ == old(self)@.with_rule(paused),
    {
        self.rule = paused;
    }

    pub fn effective(self) -> (paused: bool)
        ensures
            paused == self@.effective(),
    {
        self.manual || self.rule
    }
}

/// A manual pause is not lifted when a rule pause ends, nor a rule pause by a
/// manual resume: the wallpaper plays again only once both requests end.
pub proof fn lemma_pause_requests_are_independent(state: PauseModel, manual: bool, rule: bool)
    ensures
        state.with_manual(true).with_rule(rule).effective(),
        state.with_rule(true).with_manual(manual).effective(),
        !state.with_manual(false).with_rule(false).effective(),
        state.with_manual(manual).with_rule(rule).effective() == (manual || rule),
{
}

} // verus!

verus! {

/// The `state` values of a foreign toplevel, one per complete four-byte
/// chunk of the raw array, each read in the machine's byte order.
/// The state array, read as native-endian 32-bit values, holds `value`.
pub open spec fn contains_state(raw: Seq<u8>, value: int) -> bool {
    exists|i: int| 0 <= i < raw.len() / 4 && #[trigger] ne_value(raw, 4 * i, 4) == value
}

/// Decodes the wlr foreign-toplevel state array into
/// `(maximized, activated, fullscreen)`: state values 0, 2 and 3.
pub fn decode_toplevel_states(raw: &[u8]) -> (flags: (bool, bool, bool))
    ensures
        flags.0 == contains_state(raw@, 0),
        flags.1 == contains_state(raw@, 2),
        flags.2 == contains_state(raw@, 3),
{
    let mut maximized = false;
    let mut activated = false;
    let mut fullscreen = false;
    let len = raw.len();
    let count = len / 4;
    for i in 0..count
        invariant
            len == raw@.len(),
            count == raw@.len() / 4,
            maximized == exists|m: int| 0 <= m < i && #[trigger] ne_value(raw@, 4 * m, 4) == 0,
            activated == exists|m: int| 0 <= m < i && #[trigger] ne_value(raw@, 4 * m, 4) == 2,
            fullscreen == exists|m: int| 0 <= m < i && #[trigger] ne_value(raw@, 4 * m, 4) == 3,
    {
        assert(4 * i + 4 <= len) by (nonlinear_arith)
            requires
                i < count,
                count == len / 4,
        ;
        let value = read_u32_ne(raw, 4 * i);
        if value == 0 {
            maximized = true;
        } else if value == 2 {
            activated = true;
        } else if value == 3 {
            fullscreen = true;
        }
        assert(ne_value(raw@, 4 * i, 4) == value);
    }
    (maximized, activated, fullscreen)
}

/// Reads the constant `libc::POLLERR`, whose value on Linux is 0x8 in libc's source.
#[verifier::external_body]
fn poll_err_flag() -> (flag: i16)
    ensures
        flag == 0x8,
{
    libc::POLLERR
}

/// Reads the constant `libc::POLLHUP`, whose value on Linux is 0x10 in libc's source.
#[verifier::external_body]
fn poll_hup_flag() -> (flag: i16)
    ensures
        flag == 0x10,
{
    libc::POLLHUP
}

/// Reads the constant `libc::POLLNVAL`, whose value on Linux is 0x20 in libc's source.
#[verifier::external_body]
fn poll_nval_flag() -> (flag: i16)
    ensures
        flag == 0x20,
{
    libc::POLLNVAL
}

/// Why a poll result means the compositor connection is gone, if it does.
pub open spec fn poll_disconnect_reason(revents: i16) -> Option<Seq<char>> {
    if revents & 0x20i16 != 0 {
        Some("invalid fd"@)
    } else if revents & 0x8i16 != 0 {
        Some("poll error"@)
    } else if revents & 0x10i16 != 0 {
        Some("hangup"@)
    } else {
        None
    }
}

/// Classifies the `revents` of a poll on the foreign-toplevel connection:
/// an invalid fd, an error or a hangup ends the monitor.
pub fn foreign_toplevel_poll_disconnect(revents: i16) -> (reason: Option<&'static str>)
    ensures
        match reason {
            Some(text) => poll_disconnect_reason(revents) == Some(text@),
            None => poll_disconnect_reason(revents) is None,
        },
{
    if (revents & poll_nval_flag()) != 0 {
        Some("invalid fd")
    } else if (revents & poll_err_flag()) != 0 {
        Some("poll error")
    } else if (revents & poll_hup_flag()) != 0 {
        Some("hangup")
    } else {
        None
    }
}

} // verus!

verus! {

/// A window only affects the output it is on: adding a toplevel that does not
/// list an output leaves that output's policy as it was.
pub proof fn lemma_rules_are_scoped_to_the_toplevel_output(
    rules: RuleSet,
    name: Seq<char>,
    toplevels: Seq<ToplevelActivity>,
    other: ToplevelActivity,
)
    requires
        !lists_output(other, name),
    ensures
        policy_for_output(rules, name, toplevels.push(other)) == policy_for_output(rules, name, toplevels),
{
    let pushed = toplevels.push(other);
    assert forall|a: RuleAction| output_triggers(rules, name, pushed, a) == output_triggers(rules, name, toplevels, a) by {
        if output_triggers(rules, name, pushed, a) {
            let j = choose|j: int|
                0 <= j < pushed.len() && lists_output(#[trigger] pushed[j], name) && state_triggers(rules, pushed[j], a);
            assert(j < toplevels.len());
            assert(pushed[j] == toplevels[j]);
        }
        if output_triggers(rules, name, toplevels, a) {
            let j = choose|j: int|
                0 <= j < toplevels.len() && lists_output(#[trigger] toplevels[j], name) && state_triggers(rules, toplevels[j], a);
            assert(pushed[j] == toplevels[j]);
        }
    }
}

/// More windows never lift a pause or a mute.
pub proof fn lemma_policies_only_grow(
    rules: RuleSet,
    name: Seq<char>,
    toplevels: Seq<ToplevelActivity>,
    other: ToplevelActivity,
)
    ensures
        policy_for_output(rules, name, toplevels).pause ==> policy_for_output(rules, name, toplevels.push(other)).pause,
        policy_for_output(rules, name, toplevels).mute ==> policy_for_output(rules, name, toplevels.push(other)).mute,
{
    let pushed = toplevels.push(other);
    assert forall|a: RuleAction| output_triggers(rules, name, toplevels, a) implies output_triggers(rules, name, pushed, a) by {
        let j = choose|j: int|
            0 <= j < toplevels.len() && lists_output(#[trigger] toplevels[j], name) && state_triggers(rules, toplevels[j], a);
        assert(pushed[j] == toplevels[j]);
    }
}

/// A rule set of `Keep` actions leaves every output playing and audible.
pub proof fn lemma_keep_rules_change_nothing(rules: RuleSet, name: Seq<char>, toplevels: Seq<ToplevelActivity>)
    requires
        rules.spec_is_keep(),
    ensures
        policy_for_output(rules, name, toplevels) == (RuntimePolicy { pause: false, mute: false }),
{
}

} // verus!
