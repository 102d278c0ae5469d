use vstd::prelude::*;

use crate::rules::RuntimePolicy;
use crate::text::str_equals;

verus! {

pub open spec fn policy_views(policies: Seq<(String, RuntimePolicy)>) -> Seq<(Seq<char>, RuntimePolicy)> {
    policies.map_values(|p: (String, RuntimePolicy)| (p.0@, p.1))
}

/// The policy listed for `output`, taking the first entry that names it; an
/// output without an entry plays normally.
pub open spec fn policy_lookup(policies: Seq<(Seq<char>, RuntimePolicy)>, output: Seq<char>) -> RuntimePolicy
    decreases policies.len(),
{
    if policies.len() == 0 {
        RuntimePolicy { pause: false, mute: false }
    } else if policies[0].0 == output {
        policies[0].1
    } else {
        policy_lookup(policies.drop_first(), output)
    }
}

/// The generation after a change: one more, wrapping to zero.
pub open spec fn next_generation(generation: u64) -> u64 {
    if generation == u64::MAX {
        0
    } else {
        (generation + 1) as u64
    }
}

/// The window-rule side of the host integrations: the latest policies, a
/// generation counter that moves whenever they change, and the collector's
/// status.
pub struct RuleIntegration {
    generation: u64,
    policies: Vec<(String, RuntimePolicy)>,
    enabled: bool,
    available: bool,
    error: Option<String>,
}

pub struct RuleIntegrationModel {
    pub generation: u64,
    pub policies: Seq<(Seq<char>, RuntimePolicy)>,
    pub enabled: bool,
    pub available: bool,
    pub error: Option<Seq<char>>,
}

impl View for RuleIntegration {
    type V = RuleIntegrationModel;

    closed spec fn view(&self) -> RuleIntegrationModel {
        RuleIntegrationModel {
            generation: self.generation,
            policies: policy_views(self.policies@),
            enabled: self.enabled,
            available: self.available,
            error: match self.error {
                Some(e) => Some(e@),
                None => None,
            },
        }
    }
}

fn same_policies(a: &Vec<(String, RuntimePolicy)>, b: &Vec<(String, RuntimePolicy)>) -> (same: bool)
    ensures
        same == (policy_views(a@) == policy_views(b@)),
{
    if a.len() != b.len() {
        proof {
            assert(policy_views(a@).len() != policy_views(b@).len());
        }
        return false;
    }
    let n = a.len();
    for i in 0..n
        invariant
            n == a@.len(),
            n == b@.len(),
            forall|k: int| 0 <= k < i ==> policy_views(a@)[k] == policy_views(b@)[k],
    {
        if !(a[i].0 == b[i].0) || a[i].1 != b[i].1 {
            proof {
                assert(policy_views(a@)[i as int] != policy_views(b@)[i as int]);
            }
            return false;
        }
    }
    assert(policy_views(a@) =~= policy_views(b@));
    true
}

impl RuleIntegration {
    pub fn new() -> (state: Self)
        ensures
            state@.generation == 0,
            state@.policies == Seq::<(Seq<char>, RuntimePolicy)>::empty(),
            !state@.enabled,
            !state@.available,
            state@.error is None,
    {
        let state = RuleIntegration {
            generation: 0,
            policies: Vec::new(),
            enabled: false,
            available: false,
            error: None,
        };
        assert(state@.policies =~= Seq::<(Seq<char>, RuntimePolicy)>::empty());
        state
    }

    pub fn generation(&self) -> (generation: u64)
        ensures
            generation == self@.generation,
    {
        self.generation
    }

    /// Records what the rule collector found. The generation moves on (wrapping)
    /// only when the policies differ from the last ones.
    pub fn update(
        &mut self,
        enabled: bool,
        available: bool,
        policies: Vec<(String, RuntimePolicy)>,
        error: Option<String>,
    )
        ensures
            final(self)@.policies == policy_views(policies@),
            final(self)@.generation == (if old(self)@.policies == policy_views(policies@) {
                old(self)@.generation
            } else {
                next_generation(old(self)@.generation)
            }),
            final(self)@.enabled == enabled,
            final(self)@.available == available,
            final(self)@.error == (match error {
                Some(e) => Some(e@),
                None => None,
            }),
    {
        if !same_policies(&self.policies, &policies) {
            self.generation = self.generation.wrapping_add(1);
        }
        self.policies = policies;
        self.enabled = enabled;
        self.available = available;
        self.error = error;
    }

    /// The policy of one output.
    pub fn policy_for_output(&self, output: &str) -> (policy: RuntimePolicy)
        ensures
            policy == policy_lookup(self@.policies, output@),
    {
        let n = self.policies.len();
        let ghost all = policy_views(self.policies@);
        assert(all.skip(0) =~= all);
        for i in 0..n
            invariant
                n == self.policies@.len(),
                all == policy_views(self.policies@),
                policy_lookup(all.skip(i as int), output@) == policy_lookup(all, output@),
        {
            assert(all.skip(i as int).drop_first() =~= all.skip(i + 1));
            if str_equals(self.policies[i].0.as_str(), output) {
                return self.policies[i].1;
            }
        }
        assert(all.skip(n as int) =~= Seq::<(Seq<char>, RuntimePolicy)>::empty());
        RuntimePolicy { pause: false, mute: false }
    }
}

} // verus!
