use vstd::prelude::*;

use crate::control::RuntimeLoopExit;
use crate::text::{lemma_precedes_irreflexive, precedes};

verus! {

/// What to do with the renderer worker of one output.
#[derive(Debug, Clone, PartialEq, Eq)]
pub enum OutputAction {
    Start(String),
    Restart(String),
    Stop(String),
}

pub enum ActionModel {
    Start(Seq<char>),
    Restart(Seq<char>),
    Stop(Seq<char>),
}

impl View for OutputAction {
    type V = ActionModel;

    open spec fn view(&self) -> ActionModel {
        match self {
            OutputAction::Start(output) => ActionModel::Start(output@),
            OutputAction::Restart(output) => ActionModel::Restart(output@),
            OutputAction::Stop(output) => ActionModel::Stop(output@),
        }
    }
}

/// Outputs with the fingerprint of their configuration, in map order.
pub open spec fn entry_views(entries: Seq<(String, String)>) -> Seq<(Seq<char>, Seq<char>)> {
    entries.map_values(|e: (String, String)| (e.0@, e.1@))
}

/// The fingerprint listed for `output`, taking the first entry that names it.
pub open spec fn fingerprint_of(entries: Seq<(Seq<char>, Seq<char>)>, output: Seq<char>) -> Option<
    Seq<char>,
>
    decreases entries.len(),
{
    if entries.len() == 0 {
        None
    } else if entries[0].0 == output {
        Some(entries[0].1)
    } else {
        fingerprint_of(entries.drop_first(), output)
    }
}

/// The entries are in the order of an ordered map keyed by output name:
/// names strictly increase, so none is listed twice.
pub open spec fn keys_ascending(entries: Seq<(Seq<char>, Seq<char>)>) -> bool {
    forall|i: int, j: int| 0 <= i < j < entries.len() ==> precedes(entries[i].0, entries[j].0)
}

/// A stop for every running output that is no longer wanted, in running order.
pub open spec fn stop_actions(
    current: Seq<(Seq<char>, Seq<char>)>,
    desired: Seq<(Seq<char>, Seq<char>)>,
) -> Seq<ActionModel>
    decreases current.len(),
{
    if current.len() == 0 {
        Seq::empty()
    } else {
        let rest = stop_actions(current.drop_last(), desired);
        if fingerprint_of(desired, current.last().0) is None {
            rest.push(ActionModel::Stop(current.last().0))
        } else {
            rest
        }
    }
}

/// A start for every wanted output that does not run, and a restart for every
/// one that runs with another configuration, in wanted order.
pub open spec fn start_actions(
    current: Seq<(Seq<char>, Seq<char>)>,
    desired: Seq<(Seq<char>, Seq<char>)>,
) -> Seq<ActionModel>
    decreases desired.len(),
{
    if desired.len() == 0 {
        Seq::empty()
    } else {
        let rest = start_actions(current, desired.drop_last());
        let (output, fingerprint) = desired.last();
        match fingerprint_of(current, output) {
            None => rest.push(ActionModel::Start(output)),
            Some(running) => if running != fingerprint {
                rest.push(ActionModel::Restart(output))
            } else {
                rest
            },
        }
    }
}

proof fn lemma_fingerprint_of_push(
    entries: Seq<(Seq<char>, Seq<char>)>,
    entry: (Seq<char>, Seq<char>),
    output: Seq<char>,
)
    ensures
        fingerprint_of(entries.push(entry), output) == (match fingerprint_of(entries, output) {
            Some(f) => Some(f),
            None => if entry.0 == output {
                Some(entry.1)
            } else {
                None
            },
        }),
    decreases entries.len(),
{
    assert(entries.push(entry)[0] == if entries.len() > 0 { entries[0] } else { entry });
    if entries.len() > 0 {
        assert(entries.push(entry).drop_first() =~= entries.drop_first().push(entry));
        lemma_fingerprint_of_push(entries.drop_first(), entry, output);
    } else {
        assert(entries.push(entry).drop_first() =~= Seq::<(Seq<char>, Seq<char>)>::empty());
        assert(fingerprint_of(Seq::<(Seq<char>, Seq<char>)>::empty(), output) is None);
    }
}

fn find_fingerprint(entries: &[(String, String)], output: &String) -> (found: Option<usize>)
    ensures
        match found {
            Some(i) => i < entries@.len() && fingerprint_of(entry_views(entries@), output@) == Some(
                entries@[i as int].1@,
            ),
            None => fingerprint_of(entry_views(entries@), output@) is None,
        },
{
    let n = entries.len();
    for i in 0..n
        invariant
            n == entries@.len(),
            fingerprint_of(entry_views(entries@.take(i as int)), output@) is None,
    {
        let ghost prefix = entry_views(entries@.take(i as int));
        proof {
            assert(entry_views(entries@.take(i + 1)) =~= prefix.push((entries@[i as int].0@, entries@[i as int].1@)));
            lemma_fingerprint_of_push(prefix, (entries@[i as int].0@, entries@[i as int].1@), output@);
            lemma_fingerprint_of_prefix(entry_views(entries@), i + 1, output@);
            assert(entry_views(entries@).take(i + 1) =~= entry_views(entries@.take(i + 1)));
        }
        if entries[i].0 == *output {
            return Some(i);
        }
    }
    proof {
        assert(entries@.take(n as int) =~= entries@);
    }
    None
}

proof fn lemma_fingerprint_of_prefix(entries: Seq<(Seq<char>, Seq<char>)>, k: int, output: Seq<char>)
    requires
        0 <= k <= entries.len(),
    ensures
        fingerprint_of(entries.take(k), output) is Some ==> fingerprint_of(entries, output)
            == fingerprint_of(entries.take(k), output),
    decreases entries.len(),
{
    if entries.len() > 0 && k > 0 {
        assert(entries.take(k).drop_first() =~= entries.drop_first().take(k - 1));
        lemma_fingerprint_of_prefix(entries.drop_first(), k - 1, output);
    }
}

/// Compares the running workers with the wanted ones, each given as the
/// entries of a map from output name to configuration fingerprint, in name
/// order: stops first, in ascending name order, then starts and restarts, in
/// ascending name order.
pub fn reconcile_workers(
    current: &[(String, String)],
    desired: &[(String, String)],
) -> (actions: Vec<OutputAction>)
    requires
        keys_ascending(entry_views(current@)),
        keys_ascending(entry_views(desired@)),
    ensures
        actions@.map_values(|a: OutputAction| a@) == stop_actions(
            entry_views(current@),
            entry_views(desired@),
        ) + start_actions(entry_views(current@), entry_views(desired@)),
{
    let mut actions: Vec<OutputAction> = Vec::new();
    let ghost cur = entry_views(current@);
    let ghost des = entry_views(desired@);
    let n = current.len();
    for i in 0..n
        invariant
            n == current@.len(),
            cur == entry_views(current@),
            des == entry_views(desired@),
            actions@.map_values(|a: OutputAction| a@) == stop_actions(cur.take(i as int), des),
    {
        let output = &current[i].0;
        let ghost before = actions@;
        assert(cur.take(i + 1).drop_last() =~= cur.take(i as int));
        if find_fingerprint(desired, output).is_none() {
            actions.push(OutputAction::Stop(output.clone()));
        }
        assert(actions@.map_values(|a: OutputAction| a@) =~= stop_actions(cur.take(i + 1), des));
    }
    assert(cur.take(n as int) =~= cur);
    let ghost stops = actions@.map_values(|a: OutputAction| a@);
    let m = desired.len();
    for j in 0..m
        invariant
            m == desired@.len(),
            cur == entry_views(current@),
            des == entry_views(desired@),
            actions@.map_values(|a: OutputAction| a@) == stops + start_actions(cur, des.take(j as int)),
    {
        let (output, fingerprint) = (&desired[j].0, &desired[j].1);
        assert(des.take(j + 1).drop_last() =~= des.take(j as int));
        assert(des.take(j + 1).last() == (output@, fingerprint@));
        let ghost before = actions@.map_values(|a: OutputAction| a@);
        match find_fingerprint(current, output) {
            None => {
                actions.push(OutputAction::Start(output.clone()));
                assert(actions@.map_values(|a: OutputAction| a@) =~= before.push(ActionModel::Start(output@)));
            },
            Some(k) => {
                if !(current[k].1 == *fingerprint) {
                    actions.push(OutputAction::Restart(output.clone()));
                    assert(actions@.map_values(|a: OutputAction| a@) =~= before.push(ActionModel::Restart(output@)));
                }
            },
        }
        assert(actions@.map_values(|a: OutputAction| a@) =~= stops + start_actions(cur, des.take(j + 1)));
    }
    assert(des.take(m as int) =~= des);
    actions
}

} // verus!

verus! {

proof fn lemma_push_keeps_contents<A>(s: Seq<A>, x: A, y: A)
    requires
        s.contains(y),
    ensures
        s.push(x).contains(y),
{
    let k = choose|k: int| 0 <= k < s.len() && s[k] == y;
    assert(s.push(x)[k] == y);
}

proof fn lemma_push_contents<A>(s: Seq<A>, x: A, y: A)
    requires
        s.push(x).contains(y),
    ensures
        s.contains(y) || x == y,
{
    let k = choose|k: int| 0 <= k < s.push(x).len() && s.push(x)[k] == y;
    if k < s.len() {
        assert(s[k] == y);
    }
}

/// Every running output that is no longer wanted is stopped.
pub proof fn lemma_unwanted_outputs_are_stopped(
    current: Seq<(Seq<char>, Seq<char>)>,
    desired: Seq<(Seq<char>, Seq<char>)>,
    k: int,
)
    requires
        0 <= k < current.len(),
        fingerprint_of(desired, current[k].0) is None,
    ensures
        stop_actions(current, desired).contains(ActionModel::Stop(current[k].0)),
    decreases current.len(),
{
    let rest = stop_actions(current.drop_last(), desired);
    if k == current.len() - 1 {
        assert(stop_actions(current, desired) == rest.push(ActionModel::Stop(current[k].0)));
        assert(stop_actions(current, desired)[rest.len() as int] == ActionModel::Stop(current[k].0));
    } else {
        assert(current.drop_last()[k] == current[k]);
        lemma_unwanted_outputs_are_stopped(current.drop_last(), desired, k);
        if fingerprint_of(desired, current.last().0) is None {
            lemma_push_keeps_contents(rest, ActionModel::Stop(current.last().0), ActionModel::Stop(current[k].0));
        }
    }
}

/// Only outputs that are no longer wanted are stopped.
pub proof fn lemma_only_unwanted_outputs_are_stopped(
    current: Seq<(Seq<char>, Seq<char>)>,
    desired: Seq<(Seq<char>, Seq<char>)>,
    output: Seq<char>,
)
    requires
        stop_actions(current, desired).contains(ActionModel::Stop(output)),
    ensures
        fingerprint_of(desired, output) is None,
    decreases current.len(),
{
    if current.len() > 0 {
        let rest = stop_actions(current.drop_last(), desired);
        if fingerprint_of(desired, current.last().0) is None {
            lemma_push_contents(rest, ActionModel::Stop(current.last().0), ActionModel::Stop(output));
            if rest.contains(ActionModel::Stop(output)) {
                lemma_only_unwanted_outputs_are_stopped(current.drop_last(), desired, output);
            }
        } else {
            lemma_only_unwanted_outputs_are_stopped(current.drop_last(), desired, output);
        }
    }
}

/// Every wanted output that does not already run with its configuration is
/// started or restarted.
pub proof fn lemma_wanted_outputs_are_started(
    current: Seq<(Seq<char>, Seq<char>)>,
    desired: Seq<(Seq<char>, Seq<char>)>,
    k: int,
)
    requires
        0 <= k < desired.len(),
        fingerprint_of(current, desired[k].0) != Some(desired[k].1),
    ensures
        start_actions(current, desired).contains(ActionModel::Start(desired[k].0))
            || start_actions(current, desired).contains(ActionModel::Restart(desired[k].0)),
    decreases desired.len(),
{
    let rest = start_actions(current, desired.drop_last());
    let (output, fingerprint) = desired.last();
    if k == desired.len() - 1 {
        let all = start_actions(current, desired);
        match fingerprint_of(current, output) {
            None => {
                assert(all[rest.len() as int] == ActionModel::Start(output));
            },
            Some(running) => {
                assert(all[rest.len() as int] == ActionModel::Restart(output));
            },
        }
    } else {
        assert(desired.drop_last()[k] == desired[k]);
        lemma_wanted_outputs_are_started(current, desired.drop_last(), k);
        match fingerprint_of(current, output) {
            None => {
                if rest.contains(ActionModel::Start(desired[k].0)) {
                    lemma_push_keeps_contents(rest, ActionModel::Start(output), ActionModel::Start(desired[k].0));
                } else {
                    lemma_push_keeps_contents(rest, ActionModel::Start(output), ActionModel::Restart(desired[k].0));
                }
            },
            Some(running) => if running != fingerprint {
                if rest.contains(ActionModel::Start(desired[k].0)) {
                    lemma_push_keeps_contents(rest, ActionModel::Restart(output), ActionModel::Start(desired[k].0));
                } else {
                    lemma_push_keeps_contents(rest, ActionModel::Restart(output), ActionModel::Restart(desired[k].0));
                }
            },
        }
    }
}

/// Outputs already running are never started a second time, and outputs
/// that run with the wanted configuration are left alone.
pub proof fn lemma_running_outputs_are_not_started(
    current: Seq<(Seq<char>, Seq<char>)>,
    desired: Seq<(Seq<char>, Seq<char>)>,
    output: Seq<char>,
)
    requires
        start_actions(current, desired).contains(ActionModel::Start(output)),
    ensures
        fingerprint_of(current, output) is None,
    decreases desired.len(),
{
    if desired.len() > 0 {
        let rest = start_actions(current, desired.drop_last());
        let (last, fingerprint) = desired.last();
        match fingerprint_of(current, last) {
            None => {
                lemma_push_contents(rest, ActionModel::Start(last), ActionModel::Start(output));
                if rest.contains(ActionModel::Start(output)) {
                    lemma_running_outputs_are_not_started(current, desired.drop_last(), output);
                }
            },
            Some(running) => {
                if running != fingerprint {
                    lemma_push_contents(rest, ActionModel::Restart(last), ActionModel::Start(output));
                }
                lemma_running_outputs_are_not_started(current, desired.drop_last(), output);
            },
        }
    }
}

/// The running workers as a map from output to configuration fingerprint.
pub open spec fn workers_of(entries: Seq<(Seq<char>, Seq<char>)>) -> Map<Seq<char>, Seq<char>> {
    Map::new(|o: Seq<char>| fingerprint_of(entries, o) is Some, |o: Seq<char>| fingerprint_of(entries, o)->0)
}

/// The workers after carrying out one action: a stop ends the worker of its
/// output; a start or restart runs the output with its wanted configuration.
pub open spec fn apply_action(
    running: Map<Seq<char>, Seq<char>>,
    action: ActionModel,
    wanted: Map<Seq<char>, Seq<char>>,
) -> Map<Seq<char>, Seq<char>> {
    match action {
        ActionModel::Stop(o) => running.remove(o),
        ActionModel::Start(o) => if wanted.contains_key(o) {
            running.insert(o, wanted[o])
        } else {
            running
        },
        ActionModel::Restart(o) => if wanted.contains_key(o) {
            running.insert(o, wanted[o])
        } else {
            running
        },
    }
}

/// The workers after carrying out the actions in order.
pub open spec fn apply_actions(
    running: Map<Seq<char>, Seq<char>>,
    actions: Seq<ActionModel>,
    wanted: Map<Seq<char>, Seq<char>>,
) -> Map<Seq<char>, Seq<char>>
    decreases actions.len(),
{
    if actions.len() == 0 {
        running
    } else {
        apply_action(apply_actions(running, actions.drop_last(), wanted), actions.last(), wanted)
    }
}

proof fn lemma_apply_actions_concat(
    running: Map<Seq<char>, Seq<char>>,
    a: Seq<ActionModel>,
    b: Seq<ActionModel>,
    wanted: Map<Seq<char>, Seq<char>>,
)
    ensures
        apply_actions(running, a + b, wanted) == apply_actions(apply_actions(running, a, wanted), b, wanted),
    decreases b.len(),
{
    if b.len() == 0 {
        assert(a + b =~= a);
    } else {
        assert((a + b).drop_last() =~= a + b.drop_last());
        assert((a + b).last() == b.last());
        lemma_apply_actions_concat(running, a, b.drop_last(), wanted);
    }
}

/// The first entry for an output carries the fingerprint that is listed for it.
proof fn lemma_fingerprint_of_witness(entries: Seq<(Seq<char>, Seq<char>)>, output: Seq<char>)
    requires
        fingerprint_of(entries, output) is Some,
    ensures
        exists|k: int| 0 <= k < entries.len() && entries[k].0 == output && entries[k].1 == fingerprint_of(entries, output)->0,
    decreases entries.len(),
{
    if entries[0].0 == output {
        assert(entries[0].1 == fingerprint_of(entries, output)->0);
    } else {
        lemma_fingerprint_of_witness(entries.drop_first(), output);
        let k = choose|k: int| 0 <= k < entries.drop_first().len() && entries.drop_first()[k].0 == output
            && entries.drop_first()[k].1 == fingerprint_of(entries.drop_first(), output)->0;
        assert(entries[k + 1] == entries.drop_first()[k]);
    }
}

/// Every entry names an output that has a fingerprint.
proof fn lemma_fingerprint_of_listed(entries: Seq<(Seq<char>, Seq<char>)>, k: int)
    requires
        0 <= k < entries.len(),
    ensures
        fingerprint_of(entries, entries[k].0) is Some,
    decreases entries.len(),
{
    if k > 0 && entries[0].0 != entries[k].0 {
        assert(entries.drop_first()[k - 1] == entries[k]);
        lemma_fingerprint_of_listed(entries.drop_first(), k - 1);
    }
}

/// Some entry of `desired` names `output` with a fingerprint other than the
/// running one.
pub open spec fn needs_start(current: Seq<(Seq<char>, Seq<char>)>, desired: Seq<(Seq<char>, Seq<char>)>, output: Seq<char>) -> bool {
    exists|k: int| 0 <= k < desired.len() && #[trigger] desired[k].0 == output && fingerprint_of(current, output) != Some(desired[k].1)
}

proof fn lemma_stops_remove_unwanted(
    running: Map<Seq<char>, Seq<char>>,
    current: Seq<(Seq<char>, Seq<char>)>,
    desired: Seq<(Seq<char>, Seq<char>)>,
    wanted: Map<Seq<char>, Seq<char>>,
)
    ensures
        apply_actions(running, stop_actions(current, desired), wanted) == Map::new(
            |o: Seq<char>| running.contains_key(o) && !(fingerprint_of(current, o) is Some && fingerprint_of(desired, o) is None),
            |o: Seq<char>| running[o],
        ),
    decreases current.len(),
{
    let result = apply_actions(running, stop_actions(current, desired), wanted);
    let expected = Map::new(
        |o: Seq<char>| running.contains_key(o) && !(fingerprint_of(current, o) is Some && fingerprint_of(desired, o) is None),
        |o: Seq<char>| running[o],
    );
    if current.len() == 0 {
        assert(result =~= expected);
    } else {
        let prefix = current.drop_last();
        let last = current.last();
        assert(current =~= prefix.push(last));
        lemma_stops_remove_unwanted(running, prefix, desired, wanted);
        assert forall|o: Seq<char>| fingerprint_of(current, o) is Some <==> (fingerprint_of(prefix, o) is Some || last.0 == o) by {
            lemma_fingerprint_of_push(prefix, last, o);
        }
        let rest = stop_actions(prefix, desired);
        if fingerprint_of(desired, last.0) is None {
            assert(stop_actions(current, desired) == rest.push(ActionModel::Stop(last.0)));
            assert(stop_actions(current, desired).drop_last() =~= rest);
        }
        assert(result =~= expected);
    }
}

proof fn lemma_starts_run_wanted(
    running: Map<Seq<char>, Seq<char>>,
    current: Seq<(Seq<char>, Seq<char>)>,
    desired: Seq<(Seq<char>, Seq<char>)>,
    wanted: Map<Seq<char>, Seq<char>>,
)
    requires
        forall|k: int| 0 <= k < desired.len() ==> wanted.contains_key(#[trigger] desired[k].0),
    ensures
        apply_actions(running, start_actions(current, desired), wanted) == Map::new(
            |o: Seq<char>| running.contains_key(o) || needs_start(current, desired, o),
            |o: Seq<char>| if needs_start(current, desired, o) { wanted[o] } else { running[o] },
        ),
    decreases desired.len(),
{
    let result = apply_actions(running, start_actions(current, desired), wanted);
    let expected = Map::new(
        |o: Seq<char>| running.contains_key(o) || needs_start(current, desired, o),
        |o: Seq<char>| if needs_start(current, desired, o) { wanted[o] } else { running[o] },
    );
    if desired.len() == 0 {
        assert(result =~= expected);
    } else {
        let prefix = desired.drop_last();
        let (output, fingerprint) = desired.last();
        assert forall|k: int| 0 <= k < prefix.len() implies wanted.contains_key(#[trigger] prefix[k].0) by {
            assert(prefix[k] == desired[k]);
        }
        lemma_starts_run_wanted(running, current, prefix, wanted);
        assert forall|o: Seq<char>| needs_start(current, desired, o) <==> (needs_start(current, prefix, o)
            || (output == o && fingerprint_of(current, o) != Some(fingerprint))) by {
            if needs_start(current, desired, o) {
                let k = choose|k: int| 0 <= k < desired.len() && #[trigger] desired[k].0 == o && fingerprint_of(current, o) != Some(desired[k].1);
                if k < prefix.len() {
                    assert(prefix[k] == desired[k]);
                }
            }
            if needs_start(current, prefix, o) {
                let k = choose|k: int| 0 <= k < prefix.len() && #[trigger] prefix[k].0 == o && fingerprint_of(current, o) != Some(prefix[k].1);
                assert(desired[k] == prefix[k]);
            }
            if output == o && fingerprint_of(current, o) != Some(fingerprint) {
                assert(desired[desired.len() - 1].0 == o);
            }
        }
        assert(wanted.contains_key(desired[desired.len() - 1].0));
        let rest = start_actions(current, prefix);
        match fingerprint_of(current, output) {
            None => {
                assert(start_actions(current, desired).drop_last() =~= rest);
            },
            Some(running_fp) => {
                if running_fp != fingerprint {
                    assert(start_actions(current, desired).drop_last() =~= rest);
                }
            },
        }
        assert(result =~= expected);
    }
}

/// Reconciling runs one worker per wanted output: carrying out the actions
/// that `reconcile_workers` lists on the running workers leaves exactly the
/// wanted outputs running, each with its wanted configuration.
pub proof fn lemma_reconcile_runs_exactly_the_wanted_outputs(
    current: Seq<(Seq<char>, Seq<char>)>,
    desired: Seq<(Seq<char>, Seq<char>)>,
)
    ensures
        apply_actions(
            workers_of(current),
            stop_actions(current, desired) + start_actions(current, desired),
            workers_of(desired),
        ) == workers_of(desired),
{
    let wanted = workers_of(desired);
    let stops = stop_actions(current, desired);
    let starts = start_actions(current, desired);
    lemma_apply_actions_concat(workers_of(current), stops, starts, wanted);
    lemma_stops_remove_unwanted(workers_of(current), current, desired, wanted);
    let kept = apply_actions(workers_of(current), stops, wanted);
    assert forall|k: int| 0 <= k < desired.len() implies wanted.contains_key(#[trigger] desired[k].0) by {
        lemma_fingerprint_of_listed(desired, k);
    }
    lemma_starts_run_wanted(kept, current, desired, wanted);
    let result = apply_actions(kept, starts, wanted);
    assert forall|o: Seq<char>| #[trigger] result.contains_key(o) <==> wanted.contains_key(o) by {
        if needs_start(current, desired, o) {
            let k = choose|k: int| 0 <= k < desired.len() && #[trigger] desired[k].0 == o && fingerprint_of(current, o) != Some(desired[k].1);
            lemma_fingerprint_of_listed(desired, k);
        }
        if wanted.contains_key(o) && fingerprint_of(current, o) is None {
            lemma_fingerprint_of_witness(desired, o);
            let k = choose|k: int| 0 <= k < desired.len() && desired[k].0 == o && desired[k].1 == fingerprint_of(desired, o)->0;
            assert(desired[k].0 == o);
        }
    }
    assert forall|o: Seq<char>| result.contains_key(o) implies #[trigger] result[o] == wanted[o] by {
        if !needs_start(current, desired, o) {
            lemma_fingerprint_of_witness(desired, o);
            let k = choose|k: int| 0 <= k < desired.len() && desired[k].0 == o && desired[k].1 == fingerprint_of(desired, o)->0;
            assert(desired[k].0 == o);
            assert(fingerprint_of(current, o) == Some(desired[k].1));
        }
    }
    assert(result =~= wanted);
}

proof fn lemma_fingerprint_of_ascending(entries: Seq<(Seq<char>, Seq<char>)>, k: int)
    requires
        keys_ascending(entries),
        0 <= k < entries.len(),
    ensures
        fingerprint_of(entries, entries[k].0) == Some(entries[k].1),
    decreases entries.len(),
{
    if k > 0 {
        lemma_precedes_irreflexive(entries[k].0);
        assert(precedes(entries[0].0, entries[k].0));
        let rest = entries.drop_first();
        assert(rest[k - 1] == entries[k]);
        assert forall|i: int, j: int| 0 <= i < j < rest.len() implies precedes(rest[i].0, rest[j].0) by {
            assert(rest[i] == entries[i + 1] && rest[j] == entries[j + 1]);
        }
        lemma_fingerprint_of_ascending(rest, k - 1);
    }
}

proof fn lemma_no_stops_when_all_wanted(current: Seq<(Seq<char>, Seq<char>)>, desired: Seq<(Seq<char>, Seq<char>)>)
    requires
        forall|k: int| 0 <= k < current.len() ==> fingerprint_of(desired, #[trigger] current[k].0) is Some,
    ensures
        stop_actions(current, desired) == Seq::<ActionModel>::empty(),
    decreases current.len(),
{
    if current.len() > 0 {
        let prefix = current.drop_last();
        assert forall|k: int| 0 <= k < prefix.len() implies fingerprint_of(desired, #[trigger] prefix[k].0) is Some by {
            assert(prefix[k] == current[k]);
        }
        lemma_no_stops_when_all_wanted(prefix, desired);
        assert(fingerprint_of(desired, current[current.len() - 1].0) is Some);
    }
}

proof fn lemma_no_starts_when_all_running(current: Seq<(Seq<char>, Seq<char>)>, desired: Seq<(Seq<char>, Seq<char>)>)
    requires
        forall|k: int| 0 <= k < desired.len() ==> fingerprint_of(current, #[trigger] desired[k].0) == Some(desired[k].1),
    ensures
        start_actions(current, desired) == Seq::<ActionModel>::empty(),
    decreases desired.len(),
{
    if desired.len() > 0 {
        let prefix = desired.drop_last();
        assert forall|k: int| 0 <= k < prefix.len() implies fingerprint_of(current, #[trigger] prefix[k].0) == Some(prefix[k].1) by {
            assert(prefix[k] == desired[k]);
        }
        lemma_no_starts_when_all_running(current, prefix);
        assert(fingerprint_of(current, desired[desired.len() - 1].0) == Some(desired[desired.len() - 1].1));
    }
}

/// When the running workers are exactly the wanted ones, each with its
/// wanted configuration (the same map), reconciling lists no action.
pub proof fn lemma_unchanged_workers_need_no_action(workers: Seq<(Seq<char>, Seq<char>)>)
    requires
        keys_ascending(workers),
    ensures
        stop_actions(workers, workers) + start_actions(workers, workers) == Seq::<ActionModel>::empty(),
{
    assert forall|k: int| 0 <= k < workers.len() implies fingerprint_of(workers, #[trigger] workers[k].0) == Some(
        workers[k].1,
    ) by {
        lemma_fingerprint_of_ascending(workers, k);
    }
    lemma_no_stops_when_all_wanted(workers, workers);
    lemma_no_starts_when_all_running(workers, workers);
    assert(Seq::<ActionModel>::empty() + Seq::<ActionModel>::empty() =~= Seq::<ActionModel>::empty());
}

/// How one run of an output worker's runtime loop ended.
#[derive(Debug, Clone, Copy, PartialEq, Eq, Structural)]
pub enum WorkerRunOutcome {
    /// The loop returned with this exit.
    Exited(RuntimeLoopExit),
    /// The loop failed with an error.
    Failed,
}

/// What an output worker does next.
#[derive(Debug, Clone, Copy, PartialEq, Eq, Structural)]
pub enum WorkerStep {
    /// Run the runtime loop (again).
    Run,
    /// End the worker with a stop.
    Stop,
    /// End the worker with the loop's error.
    Fail,
}

/// The worker's decision before each run of its runtime loop, given whether
/// shutdown has been requested and how the previous run ended (`None` before
/// the first): a failed run ends the worker with its error and a run that
/// stopped ends it with a stop; otherwise (first run, or a run that asked
/// for a restart or a reconfiguration) the worker stops when shutdown was
/// requested and runs the loop again when not.
pub fn worker_next_step(shutdown_requested: bool, last_run: Option<WorkerRunOutcome>) -> (step: WorkerStep)
    ensures
        step == match last_run {
            Some(WorkerRunOutcome::Failed) => WorkerStep::Fail,
            Some(WorkerRunOutcome::Exited(RuntimeLoopExit::Stop)) => WorkerStep::Stop,
            _ => if shutdown_requested {
                WorkerStep::Stop
            } else {
                WorkerStep::Run
            },
        },
{
    match last_run {
        Some(WorkerRunOutcome::Failed) => WorkerStep::Fail,
        Some(WorkerRunOutcome::Exited(RuntimeLoopExit::Stop)) => WorkerStep::Stop,
        _ => if shutdown_requested {
            WorkerStep::Stop
        } else {
            WorkerStep::Run
        },
    }
}

} // verus!
