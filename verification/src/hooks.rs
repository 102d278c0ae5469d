use vstd::prelude::*;

use crate::backend::{backend_config_name, BackendKind};
use crate::text::{decimal, decimal_text, str_equals};

verus! {

/// The trigger fires for a report when it has not fired yet and the report
/// counts a presented frame.
pub open spec fn fires(fired: bool, presented_frames: u64) -> bool {
    !fired && presented_frames > 0
}

pub open spec fn fired_after(fired: bool, presented_frames: u64) -> bool {
    fired || presented_frames > 0
}

/// Fires the `wallpaper_applied` hook once, for the first status that reports
/// a presented frame.
#[derive(Debug)]
pub struct WallpaperAppliedTrigger {
    fired: bool,
}

impl View for WallpaperAppliedTrigger {
    type V = bool;

    closed spec fn view(&self) -> bool {
        self.fired
    }
}

impl Default for WallpaperAppliedTrigger {
    fn default() -> (trigger: Self)
        ensures
            !trigger@,
    {
        WallpaperAppliedTrigger { fired: false }
    }
}

impl WallpaperAppliedTrigger {
    /// Looks at the presented-frame count of a status report; returns true
    /// exactly when this is the first report with a presented frame.
    pub fn observe(&mut self, presented_frames: u64) -> (fire: bool)
        ensures
            fire == fires(old(self)@, presented_frames),
            final(self)@ == fired_after(old(self)@, presented_frames),
    {
        if self.fired || presented_frames == 0 {
            return false;
        }
        self.fired = true;
        true
    }
}

/// The hook fires at most once: after a report that fires it, no later report
/// fires it again.
pub proof fn lemma_trigger_fires_at_most_once(fired: bool, first: u64, later: u64)
    ensures
        fires(fired, first) ==> !fires(fired_after(fired, first), later),
        fired ==> !fires(fired, later),
{
}

pub open spec fn env_views(vars: Seq<(String, String)>) -> Seq<(Seq<char>, Seq<char>)> {
    vars.map_values(|v: (String, String)| (v.0@, v.1@))
}

/// The environment a `wallpaper_applied` hook runs with: the event name, the
/// wallpaper source (with `~` already expanded), the backend and the session
/// generation in decimal.
pub fn wallpaper_applied_env(source: &str, backend: BackendKind, generation: u64) -> (vars: Vec<(String, String)>)
    ensures
        env_views(vars@) == seq![
            ("WE_LAYERD_EVENT"@, "wallpaper_applied"@),
            ("WE_LAYERD_SOURCE"@, source@),
            ("WE_LAYERD_BACKEND"@, backend_config_name(backend)),
            ("WE_LAYERD_GENERATION"@, decimal(generation as nat)),
        ],
{
    let mut vars: Vec<(String, String)> = Vec::new();
    vars.push(("WE_LAYERD_EVENT".to_string(), "wallpaper_applied".to_string()));
    vars.push(("WE_LAYERD_SOURCE".to_string(), source.to_string()));
    vars.push(("WE_LAYERD_BACKEND".to_string(), backend.as_config_str().to_string()));
    vars.push(("WE_LAYERD_GENERATION".to_string(), decimal_text(generation)));
    assert(env_views(vars@) =~= seq![
        ("WE_LAYERD_EVENT"@, "wallpaper_applied"@),
        ("WE_LAYERD_SOURCE"@, source@),
        ("WE_LAYERD_BACKEND"@, backend_config_name(backend)),
        ("WE_LAYERD_GENERATION"@, decimal(generation as nat)),
    ]);
    vars
}


/// The hook state of one output as a view: its output name, the source its
/// trigger was armed for, and whether the trigger has fired.
pub open spec fn hook_views(entries: Seq<(String, String, WallpaperAppliedTrigger)>) -> Seq<(Seq<char>, Seq<char>, bool)> {
    entries.map_values(|e: (String, String, WallpaperAppliedTrigger)| (e.0@, e.1@, e.2@))
}

/// The source and fired flag recorded for `output`, if any.
pub open spec fn hook_entry(entries: Seq<(Seq<char>, Seq<char>, bool)>, output: Seq<char>) -> Option<(Seq<char>, bool)>
    decreases entries.len(),
{
    if entries.len() == 0 {
        None
    } else if entries.last().0 == output {
        Some((entries.last().1, entries.last().2))
    } else {
        hook_entry(entries.drop_last(), output)
    }
}

/// Whether the trigger of `output` has already fired for `source`: a new
/// output, or one whose source changed, starts unfired.
pub open spec fn fired_for(entries: Seq<(Seq<char>, Seq<char>, bool)>, output: Seq<char>, source: Seq<char>) -> bool {
    match hook_entry(entries, output) {
        Some((armed, fired)) => armed == source && fired,
        None => false,
    }
}

proof fn lemma_hook_entry_update(entries: Seq<(Seq<char>, Seq<char>, bool)>, i: int, entry: (Seq<char>, Seq<char>, bool), other: Seq<char>)
    requires
        0 <= i < entries.len(),
        entries[i].0 == entry.0,
        other != entry.0,
    ensures
        hook_entry(entries.update(i, entry), other) == hook_entry(entries, other),
    decreases entries.len(),
{
    let updated = entries.update(i, entry);
    if i == entries.len() - 1 {
        assert(updated.drop_last() =~= entries.drop_last());
    } else {
        assert(updated.drop_last() =~= entries.drop_last().update(i, entry));
        lemma_hook_entry_update(entries.drop_last(), i, entry, other);
    }
}

proof fn lemma_hook_entry_last_match(entries: Seq<(Seq<char>, Seq<char>, bool)>, i: int, output: Seq<char>)
    requires
        0 <= i < entries.len(),
        entries[i].0 == output,
        forall|k: int| i < k < entries.len() ==> entries[k].0 != output,
    ensures
        hook_entry(entries, output) == Some((entries[i].1, entries[i].2)),
    decreases entries.len(),
{
    if i < entries.len() - 1 {
        lemma_hook_entry_last_match(entries.drop_last(), i, output);
    }
}

proof fn lemma_hook_entry_none(entries: Seq<(Seq<char>, Seq<char>, bool)>, output: Seq<char>)
    requires
        forall|k: int| 0 <= k < entries.len() ==> entries[k].0 != output,
    ensures
        hook_entry(entries, output) is None,
    decreases entries.len(),
{
    if entries.len() > 0 {
        lemma_hook_entry_none(entries.drop_last(), output);
    }
}

/// The `wallpaper_applied` triggers of the outputs, each armed for the source
/// it shows: a trigger fires once per output and source, and is armed again
/// when the output gets another source or goes away.
pub struct AppliedHooks {
    entries: Vec<(String, String, WallpaperAppliedTrigger)>,
}

impl View for AppliedHooks {
    type V = Seq<(Seq<char>, Seq<char>, bool)>;

    closed spec fn view(&self) -> Seq<(Seq<char>, Seq<char>, bool)> {
        hook_views(self.entries@)
    }
}

impl AppliedHooks {
    pub fn new() -> (hooks: Self)
        ensures
            hooks@ == Seq::<(Seq<char>, Seq<char>, bool)>::empty(),
            forall|output: Seq<char>| #[trigger] hook_entry(hooks@, output) is None,
    {
        let hooks = AppliedHooks { entries: Vec::new() };
        assert(hooks@ =~= Seq::<(Seq<char>, Seq<char>, bool)>::empty());
        assert forall|output: Seq<char>| #[trigger] hook_entry(hooks@, output) is None by {
            assert(hooks@.len() == 0);
        }
        hooks
    }

    fn find(&self, output: &str) -> (found: Option<usize>)
        ensures
            match found {
                Some(i) => i < self@.len() && self@[i as int].0 == output@
                    && forall|k: int| i < k < self@.len() ==> self@[k].0 != output@,
                None => forall|k: int| 0 <= k < self@.len() ==> self@[k].0 != output@,
            },
    {
        let mut i = self.entries.len();
        while i > 0
            invariant
                i <= self@.len(),
                self@.len() == self.entries@.len(),
                forall|k: int| i <= k < self@.len() ==> self@[k].0 != output@,
            decreases i,
        {
            i = i - 1;
            if str_equals(self.entries[i].0.as_str(), output) {
                return Some(i);
            }
        }
        None
    }

    /// A status report for `output`, which shows `source` and has presented
    /// `presented_frames` frames. Returns whether the hook fires now.
    pub fn observe(&mut self, output: &str, source: &str, presented_frames: u64) -> (fire: bool)
        ensures
            fire == fires(fired_for(old(self)@, output@, source@), presented_frames),
            hook_entry(final(self)@, output@) == Some(
                (source@, fired_after(fired_for(old(self)@, output@, source@), presented_frames)),
            ),
            forall|other: Seq<char>| other != output@ ==> #[trigger] hook_entry(final(self)@, other)
                == hook_entry(old(self)@, other),
    {
        let ghost before = self@;
        let ghost prior = fired_for(before, output@, source@);
        match self.find(output) {
            Some(i) => {
                proof {
                    lemma_hook_entry_last_match(before, i as int, output@);
                }
                let same_source = str_equals(self.entries[i].1.as_str(), source);
                let mut trigger = if same_source {
                    WallpaperAppliedTrigger { fired: self.entries[i].2.fired }
                } else {
                    WallpaperAppliedTrigger { fired: false }
                };
                assert(trigger@ == prior);
                let fire = trigger.observe(presented_frames);
                let entry = (output.to_string(), source.to_string(), trigger);
                self.entries.set(i, entry);
                proof {
                    let new_entry = (output@, source@, fired_after(prior, presented_frames));
                    assert(self@ =~= before.update(i as int, new_entry));
                    lemma_hook_entry_last_match(self@, i as int, output@);
                    assert forall|other: Seq<char>| other != output@ implies #[trigger] hook_entry(self@, other)
                        == hook_entry(before, other) by {
                        lemma_hook_entry_update(before, i as int, new_entry, other);
                    }
                }
                fire
            },
            None => {
                proof {
                    lemma_hook_entry_none(before, output@);
                }
                let mut trigger = WallpaperAppliedTrigger { fired: false };
                let fire = trigger.observe(presented_frames);
                self.entries.push((output.to_string(), source.to_string(), trigger));
                proof {
                    assert(self@.drop_last() =~= before);
                }
                fire
            },
        }
    }

    /// The output went away; its trigger is forgotten.
    pub fn remove(&mut self, output: &str)
        ensures
            hook_entry(final(self)@, output@) is None,
            forall|other: Seq<char>| other != output@ ==> #[trigger] hook_entry(final(self)@, other)
                == hook_entry(old(self)@, other),
    {
        let ghost before = self@;
        let mut kept: Vec<(String, String, WallpaperAppliedTrigger)> = Vec::new();
        let n = self.entries.len();
        let mut i: usize = 0;
        while i < n
            invariant
                n == self.entries@.len(),
                before == hook_views(self.entries@),
                i <= n,
                forall|k: int| 0 <= k < hook_views(kept@).len() ==> hook_views(kept@)[k].0 != output@,
                forall|other: Seq<char>| other != output@ ==> #[trigger] hook_entry(hook_views(kept@), other)
                    == hook_entry(before.take(i as int), other),
            decreases n - i,
        {
            let ghost prefix = before.take(i as int);
            let ghost next = before.take(i + 1);
            let ghost x = before[i as int];
            assert(next.drop_last() =~= prefix);
            assert(next.last() == x);
            let ghost old_kept = hook_views(kept@);
            if !str_equals(self.entries[i].0.as_str(), output) {
                let entry = (
                    self.entries[i].0.clone(),
                    self.entries[i].1.clone(),
                    WallpaperAppliedTrigger { fired: self.entries[i].2.fired },
                );
                kept.push(entry);
                proof {
                    let now = hook_views(kept@);
                    assert(now.drop_last() =~= old_kept);
                    assert(now.last() == x);
                    assert forall|k: int| 0 <= k < now.len() implies now[k].0 != output@ by {
                        if k < old_kept.len() {
                            assert(now[k] == old_kept[k]);
                        }
                    }
                    assert forall|other: Seq<char>| other != output@ implies #[trigger] hook_entry(now, other)
                        == hook_entry(next, other) by {
                        assert(hook_entry(old_kept, other) == hook_entry(prefix, other));
                    }
                }
            } else {
                proof {
                    assert forall|other: Seq<char>| other != output@ implies #[trigger] hook_entry(old_kept, other)
                        == hook_entry(next, other) by {
                        assert(hook_entry(old_kept, other) == hook_entry(prefix, other));
                    }
                }
            }
            i = i + 1;
        }
        assert(before.take(n as int) =~= before);
        self.entries = kept;
        proof {
            lemma_hook_entry_none(self@, output@);
        }
    }
}

/// Once a report has fired the hook of an output for a source, later reports
/// for the same output and source never fire it again.
pub proof fn lemma_hook_fires_once_per_output_and_source(
    entries: Seq<(Seq<char>, Seq<char>, bool)>,
    output: Seq<char>,
    source: Seq<char>,
    prior: bool,
    first: u64,
    later: u64,
)
    requires
        fires(prior, first),
        hook_entry(entries, output) == Some((source, fired_after(prior, first))),
    ensures
        !fires(fired_for(entries, output, source), later),
{
}

/// A trigger is armed again for a new source: an output whose recorded
/// source differs has not fired for the new one.
pub proof fn lemma_new_source_rearms(entries: Seq<(Seq<char>, Seq<char>, bool)>, output: Seq<char>, source: Seq<char>)
    requires
        hook_entry(entries, output) matches Some((armed, _)) && armed != source,
    ensures
        !fired_for(entries, output, source),
{
}

} // verus!
