use std::collections::{BTreeMap, BTreeSet};
use vstd::prelude::*;
use vstd::std_specs::iter::IteratorSpec;

use crate::bytes::ne_value;
use crate::ordered::{key_order, lemma_increasing_u32, lemma_increasing_u32_refs, lemma_u32_keys_ordered};
use crate::rules::{decode_toplevel_states, contains_state, ToplevelActivity};

verus! {

broadcast use vstd::std_specs::btree::group_btree_axioms, vstd::seq_lib::group_seq_properties;

/// What the compositor has told us about one foreign toplevel: the protocol
/// ids of the outputs it is on and its state flags.
#[derive(Debug, Clone)]
pub struct ToplevelRecord {
    pub outputs: BTreeSet<u32>,
    pub activated: bool,
    pub maximized: bool,
    pub fullscreen: bool,
}

impl Default for ToplevelRecord {
    fn default() -> (record: Self)
        ensures
            record.outputs@ == Set::<u32>::empty(),
            !record.activated,
            !record.maximized,
            !record.fullscreen,
    {
        ToplevelRecord { outputs: BTreeSet::new(), activated: false, maximized: false, fullscreen: false }
    }
}

/// Mirror of the compositor's outputs and foreign toplevels, fed by protocol
/// events: output globals by registry name, output names by protocol id, and
/// toplevel records by protocol id.
pub struct ForeignToplevelProbe {
    pub output_globals: BTreeMap<u32, u32>,
    pub output_names: BTreeMap<u32, String>,
    pub toplevels: BTreeMap<u32, ToplevelRecord>,
    pub finished: bool,
}

/// The names known for `ids`, in the order of `ids`, skipping ids without a name.
pub open spec fn names_of(ids: Seq<u32>, names: Map<u32, String>) -> Seq<Seq<char>>
    decreases ids.len(),
{
    if ids.len() == 0 {
        Seq::empty()
    } else {
        let rest = names_of(ids.drop_last(), names);
        if names.contains_key(ids.last()) {
            rest.push(names[ids.last()]@)
        } else {
            rest
        }
    }
}

pub open spec fn string_views(strings: Seq<String>) -> Seq<Seq<char>> {
    strings.map_values(|s: String| s@)
}

/// `activity` reports `record`: its flags, and the names of its outputs in
/// increasing protocol-id order.
pub open spec fn reports_record(
    activity: ToplevelActivity,
    record: ToplevelRecord,
    names: Map<u32, String>,
) -> bool {
    &&& activity.activated == record.activated
    &&& activity.maximized == record.maximized
    &&& activity.fullscreen == record.fullscreen
    &&& exists|ids: Seq<u32>|
        key_order(ids, record.outputs@) && string_views(activity.outputs@) == names_of(ids, names)
}

/// `after` is `before` with output `id` dropped from every toplevel.
pub open spec fn toplevels_without_output(
    before: Map<u32, ToplevelRecord>,
    after: Map<u32, ToplevelRecord>,
    id: u32,
) -> bool {
    &&& after.dom() == before.dom()
    &&& forall|k: u32|
        #[trigger] after.contains_key(k) ==> {
            &&& after[k].outputs@ == before[k].outputs@.remove(id)
            &&& after[k].activated == before[k].activated
            &&& after[k].maximized == before[k].maximized
            &&& after[k].fullscreen == before[k].fullscreen
        }
}

fn names_for(ids: &BTreeSet<u32>, names: &BTreeMap<u32, String>) -> (found: Vec<String>)
    ensures
        exists|order: Seq<u32>|
            key_order(order, ids@) && string_views(found@) == names_of(order, names@),
{
    proof {
        lemma_u32_keys_ordered();
    }
    let mut found: Vec<String> = Vec::new();
    let ghost s = ids.iter().remaining();
    for id in it: ids.iter()
        invariant
            it.seq() == s,
            string_views(found@) == names_of(s.take(it.index()).unref(), names@),
    {
        let ghost prev = found@;
        assert(s.take(it.index() + 1).unref().drop_last() =~= s.take(it.index()).unref());
        assert(s.take(it.index() + 1).unref().last() == *id);
        match names.get(id) {
            Some(name) => {
                found.push(name.clone());
                assert(string_views(found@) =~= string_views(prev).push(name@));
            },
            None => {},
        }
    }
    proof {
        assert(s.take(s.len() as int) =~= s);
        let order = s.unref();
        lemma_increasing_u32_refs(s);
        assert(order.to_set() =~= ids@);
        assert(key_order(order, ids@));
        assert(key_order(order, ids@) && string_views(found@) == names_of(order, names@));
    }
    found
}

fn collect_toplevel_ids(toplevels: &BTreeMap<u32, ToplevelRecord>) -> (ids: Vec<u32>)
    ensures
        key_order(ids@, toplevels@.dom()),
{
    proof {
        lemma_u32_keys_ordered();
    }
    let mut ids: Vec<u32> = Vec::new();
    let ghost s = toplevels.iter().remaining();
    for kv in it: toplevels.iter()
        invariant
            it.seq() == s,
            ids@ == s.take(it.index()).map_values(|p: (&u32, &ToplevelRecord)| *p.0),
    {
        let (id, _record) = kv;
        ids.push(*id);
        assert(s.take(it.index() + 1) =~= s.take(it.index()).push(kv));
        assert(s.take(it.index() + 1).map_values(|p: (&u32, &ToplevelRecord)| *p.0) =~= ids@);
    }
    proof {
        assert(s.take(s.len() as int) =~= s);
        lemma_increasing_u32(ids@);
        assert forall|k: u32| toplevels@.dom().contains(k) implies ids@.to_set().contains(k) by {
            assert(s.contains((&k, &toplevels@[k])));
            let i = choose|i: int| 0 <= i < s.len() && s[i] == (&k, &toplevels@[k]);
            assert(ids@[i] == k);
        }
        assert forall|k: u32| ids@.to_set().contains(k) implies toplevels@.dom().contains(k) by {
            let i = choose|i: int| 0 <= i < ids@.len() && ids@[i] == k;
            assert(toplevels@.contains_key(*s[i].0));
        }
        assert(ids@.to_set() =~= toplevels@.dom());
    }
    ids
}

impl ForeignToplevelProbe {
    pub fn new() -> (probe: Self)
        ensures
            probe.output_globals@ == Map::<u32, u32>::empty(),
            probe.output_names@ == Map::<u32, String>::empty(),
            probe.toplevels@ == Map::<u32, ToplevelRecord>::empty(),
            !probe.finished,
    {
        ForeignToplevelProbe {
            output_globals: BTreeMap::new(),
            output_names: BTreeMap::new(),
            toplevels: BTreeMap::new(),
            finished: false,
        }
    }

    /// A `wl_output` global was bound: remember which protocol object stands
    /// for it.
    pub fn register_output_global(&mut self, global_name: u32, protocol_id: u32)
        ensures
            final(self).output_globals@ == old(self).output_globals@.insert(global_name, protocol_id),
            final(self).output_names@ == old(self).output_names@,
            final(self).toplevels@ == old(self).toplevels@,
            final(self).finished == old(self).finished,
    {
        proof {
            lemma_u32_keys_ordered();
        }
        self.output_globals.insert(global_name, protocol_id);
    }

    /// An output announced its name. It is kept only while the object still
    /// stands for a live global, so events of a removed output stay ignored.
    pub fn record_output_name(&mut self, global_name: u32, protocol_id: u32, name: String)
        ensures
            final(self).output_names@ == names_after_name_event(
                old(self).output_globals@,
                old(self).output_names@,
                global_name,
                protocol_id,
                name,
            ),
            final(self).output_globals@ == old(self).output_globals@,
            final(self).toplevels@ == old(self).toplevels@,
            final(self).finished == old(self).finished,
    {
        proof {
            lemma_u32_keys_ordered();
        }
        let live = match self.output_globals.get(&global_name) {
            Some(id) => *id == protocol_id,
            None => false,
        };
        if live {
            self.output_names.insert(protocol_id, name);
        }
    }

    /// A `wl_output` global went away: forget its object, its name, and its
    /// membership in every toplevel.
    pub fn remove_output_global(&mut self, global_name: u32)
        ensures
            old(self).output_globals@.contains_key(global_name) ==> {
                let id = old(self).output_globals@[global_name];
                &&& final(self).output_globals@ == old(self).output_globals@.remove(global_name)
                &&& final(self).output_names@ == old(self).output_names@.remove(id)
                &&& toplevels_without_output(old(self).toplevels@, final(self).toplevels@, id)
            },
            !old(self).output_globals@.contains_key(global_name) ==> {
                &&& final(self).output_globals@ == old(self).output_globals@
                &&& final(self).output_names@ == old(self).output_names@
                &&& final(self).toplevels@ == old(self).toplevels@
            },
            final(self).finished == old(self).finished,
    {
        proof {
            lemma_u32_keys_ordered();
        }
        let protocol_id = match self.output_globals.remove(&global_name) {
            Some(id) => id,
            None => return,
        };
        self.output_names.remove(&protocol_id);
        let ids = collect_toplevel_ids(&self.toplevels);
        let ghost before = self.toplevels@;
        let n = ids.len();
        for i in 0..n
            invariant
                n == ids@.len(),
                key_order(ids@, before.dom()),
                self.finished == old(self).finished,
                old(self).output_globals@.contains_key(global_name),
                protocol_id == old(self).output_globals@[global_name],
                self.output_globals@ == old(self).output_globals@.remove(global_name),
                self.output_names@ == old(self).output_names@.remove(protocol_id),
                before == old(self).toplevels@,
                self.toplevels@.dom() == before.dom(),
                forall|k: u32|
                    #[trigger] self.toplevels@.contains_key(k) ==> {
                        &&& self.toplevels@[k].outputs@ == (if ids@.take(i as int).contains(k) {
                            before[k].outputs@.remove(protocol_id)
                        } else {
                            before[k].outputs@
                        })
                        &&& self.toplevels@[k].activated == before[k].activated
                        &&& self.toplevels@[k].maximized == before[k].maximized
                        &&& self.toplevels@[k].fullscreen == before[k].fullscreen
                    },
        {
            let id = ids[i];
            assert(ids@.to_set().contains(id));
            assert(forall|j: int| 0 <= j < i ==> ids@[j] != id);
            assert(!ids@.take(i as int).contains(id));
            assert(ids@.take(i + 1) =~= ids@.take(i as int).push(id));
            match self.toplevels.remove(&id) {
                Some(mut record) => {
                    record.outputs.remove(&protocol_id);
                    self.toplevels.insert(id, record);
                },
                None => {},
            }
            assert(self.toplevels@.dom() =~= before.dom());
        }
        proof {
            assert(ids@.take(n as int) =~= ids@);
            assert forall|k: u32| #[trigger] self.toplevels@.contains_key(k) implies ids@.contains(k) by {
                assert(ids@.to_set().contains(k));
            }
        }
    }

    /// A new toplevel handle appeared; it starts with no outputs and no state.
    pub fn toplevel_created(&mut self, id: u32)
        ensures
            final(self).toplevels@.dom() == old(self).toplevels@.dom().insert(id),
            old(self).toplevels@.contains_key(id) ==> final(self).toplevels@ == old(self).toplevels@,
            !old(self).toplevels@.contains_key(id) ==> {
                &&& final(self).toplevels@[id].outputs@ == Set::<u32>::empty()
                &&& !final(self).toplevels@[id].activated
                &&& !final(self).toplevels@[id].maximized
                &&& !final(self).toplevels@[id].fullscreen
                &&& forall|k: u32| k != id ==> #[trigger] final(self).toplevels@.contains_key(k)
                    ==> final(self).toplevels@[k] == old(self).toplevels@[k]
            },
            final(self).output_globals@ == old(self).output_globals@,
            final(self).output_names@ == old(self).output_names@,
            final(self).finished == old(self).finished,
    {
        proof {
            lemma_u32_keys_ordered();
        }
        if !self.toplevels.contains_key(&id) {
            self.toplevels.insert(id, ToplevelRecord::default());
        }
        assert(self.toplevels@.dom() =~= old(self).toplevels@.dom().insert(id));
    }

    /// The toplevel was closed.
    pub fn toplevel_closed(&mut self, id: u32)
        ensures
            final(self).toplevels@ == old(self).toplevels@.remove(id),
            final(self).output_globals@ == old(self).output_globals@,
            final(self).output_names@ == old(self).output_names@,
            final(self).finished == old(self).finished,
    {
        proof {
            lemma_u32_keys_ordered();
        }
        self.toplevels.remove(&id);
    }

    /// The toplevel entered (`entered`) or left an output.
    pub fn toplevel_output_event(&mut self, id: u32, output: u32, entered: bool)
        ensures
            final(self).toplevels@.dom() == old(self).toplevels@.dom().insert(id),
            final(self).toplevels@[id].outputs@ == (if entered {
                toplevel_outputs_or_none(old(self).toplevels@, id).insert(output)
            } else {
                toplevel_outputs_or_none(old(self).toplevels@, id).remove(output)
            }),
            old(self).toplevels@.contains_key(id) ==> {
                &&& final(self).toplevels@[id].activated == old(self).toplevels@[id].activated
                &&& final(self).toplevels@[id].maximized == old(self).toplevels@[id].maximized
                &&& final(self).toplevels@[id].fullscreen == old(self).toplevels@[id].fullscreen
            },
            forall|k: u32| k != id ==> #[trigger] final(self).toplevels@.contains_key(k)
                ==> final(self).toplevels@[k] == old(self).toplevels@[k],
            final(self).output_globals@ == old(self).output_globals@,
            final(self).output_names@ == old(self).output_names@,
            final(self).finished == old(self).finished,
    {
        proof {
            lemma_u32_keys_ordered();
        }
        let mut record = match self.toplevels.remove(&id) {
            Some(record) => record,
            None => ToplevelRecord::default(),
        };
        if entered {
            record.outputs.insert(output);
        } else {
            record.outputs.remove(&output);
        }
        self.toplevels.insert(id, record);
        assert(self.toplevels@.dom() =~= old(self).toplevels@.dom().insert(id));
    }

    /// The toplevel reported its state array.
    pub fn toplevel_state_event(&mut self, id: u32, raw: &[u8])
        ensures
            final(self).toplevels@.dom() == old(self).toplevels@.dom().insert(id),
            final(self).toplevels@[id].outputs@ == toplevel_outputs_or_none(old(self).toplevels@, id),
            final(self).toplevels@[id].maximized == contains_state(raw@, 0),
            final(self).toplevels@[id].activated == contains_state(raw@, 2),
            final(self).toplevels@[id].fullscreen == contains_state(raw@, 3),
            forall|k: u32| k != id ==> #[trigger] final(self).toplevels@.contains_key(k)
                ==> final(self).toplevels@[k] == old(self).toplevels@[k],
            final(self).output_globals@ == old(self).output_globals@,
            final(self).output_names@ == old(self).output_names@,
            final(self).finished == old(self).finished,
    {
        proof {
            lemma_u32_keys_ordered();
        }
        let mut record = match self.toplevels.remove(&id) {
            Some(record) => record,
            None => ToplevelRecord::default(),
        };
        let (maximized, activated, fullscreen) = decode_toplevel_states(raw);
        record.maximized = maximized;
        record.activated = activated;
        record.fullscreen = fullscreen;
        self.toplevels.insert(id, record);
        assert(self.toplevels@.dom() =~= old(self).toplevels@.dom().insert(id));
    }

    /// The toplevel manager finished: no more events will come.
    pub fn finish(&mut self)
        ensures
            final(self).finished,
            final(self).output_globals@ == old(self).output_globals@,
            final(self).output_names@ == old(self).output_names@,
            final(self).toplevels@ == old(self).toplevels@,
    {
        self.finished = true;
    }

    /// The known output names, in increasing protocol-id order.
    pub fn outputs(&self) -> (names: Vec<String>)
        ensures
            exists|order: Seq<u32>|
                key_order(order, self.output_names@.dom()) && string_views(names@) == order.map_values(
                    |id: u32| self.output_names@[id]@,
                ),
    {
        proof {
            lemma_u32_keys_ordered();
        }
        let mut names: Vec<String> = Vec::new();
        let ghost s = self.output_names.iter().remaining();
        for kv in it: self.output_names.iter()
            invariant
                it.seq() == s,
                string_views(names@) == s.take(it.index()).map_values(
                    |p: (&u32, &String)| self.output_names@[*p.0]@,
                ),
        {
            let (_id, name) = kv;
            let ghost prev = names@;
            names.push(name.clone());
            assert(s.take(it.index() + 1) =~= s.take(it.index()).push(kv));
            assert(string_views(names@) =~= string_views(prev).push(name@));
        }
        proof {
            assert(s.take(s.len() as int) =~= s);
            let order = s.map_values(|p: (&u32, &String)| *p.0);
            lemma_increasing_u32(order);
            assert forall|k: u32| self.output_names@.dom().contains(k) implies order.to_set().contains(k) by {
                assert(s.contains((&k, &self.output_names@[k])));
                let i = choose|i: int| 0 <= i < s.len() && s[i] == (&k, &self.output_names@[k]);
                assert(order[i] == k);
            }
            assert forall|k: u32| order.to_set().contains(k) implies self.output_names@.dom().contains(k) by {
                let i = choose|i: int| 0 <= i < order.len() && order[i] == k;
                assert(self.output_names@.contains_key(*s[i].0));
            }
            assert(order.to_set() =~= self.output_names@.dom());
            assert(string_views(names@) =~= order.map_values(|id: u32| self.output_names@[id]@));
            assert(key_order(order, self.output_names@.dom()) && string_views(names@) == order.map_values(
                |id: u32| self.output_names@[id]@,
            ));
        }
        names
    }

    /// One activity per known toplevel, in increasing protocol-id order, each
    /// naming only the outputs whose name is known.
    pub fn activities(&self) -> (activities: Vec<ToplevelActivity>)
        ensures
            exists|order: Seq<u32>|
                {
                    &&& key_order(order, self.toplevels@.dom())
                    &&& activities@.len() == order.len()
                    &&& forall|i: int|
                        0 <= i < order.len() ==> reports_record(
                            #[trigger] activities@[i],
                            self.toplevels@[order[i]],
                            self.output_names@,
                        )
                },
    {
        proof {
            lemma_u32_keys_ordered();
        }
        let mut activities: Vec<ToplevelActivity> = Vec::new();
        let ghost s = self.toplevels.iter().remaining();
        for kv in it: self.toplevels.iter()
            invariant
                it.seq() == s,
                activities@.len() == it.index(),
                forall|m: int|
                    0 <= m < it.index() ==> reports_record(
                        #[trigger] activities@[m],
                        *s[m].1,
                        self.output_names@,
                    ),
        {
            let (_id, record) = kv;
            let outputs = names_for(&record.outputs, &self.output_names);
            activities.push(
                ToplevelActivity {
                    outputs,
                    activated: record.activated,
                    maximized: record.maximized,
                    fullscreen: record.fullscreen,
                },
            );
        }
        proof {
            let order = s.map_values(|p: (&u32, &ToplevelRecord)| *p.0);
            lemma_increasing_u32(order);
            assert forall|k: u32| self.toplevels@.dom().contains(k) implies order.to_set().contains(k) by {
                assert(s.contains((&k, &self.toplevels@[k])));
                let i = choose|i: int| 0 <= i < s.len() && s[i] == (&k, &self.toplevels@[k]);
                assert(order[i] == k);
            }
            assert forall|k: u32| order.to_set().contains(k) implies self.toplevels@.dom().contains(k) by {
                let i = choose|i: int| 0 <= i < order.len() && order[i] == k;
                assert(self.toplevels@.contains_key(*s[i].0));
            }
            assert(order.to_set() =~= self.toplevels@.dom());
            assert forall|i: int| 0 <= i < order.len() implies reports_record(
                #[trigger] activities@[i],
                self.toplevels@[order[i]],
                self.output_names@,
            ) by {
                assert(self.toplevels@[*s[i].0] == *s[i].1);
            }
            assert(key_order(order, self.toplevels@.dom()) && activities@.len() == order.len());
        }
        activities
    }
}

/// The output names after an output object announced `name`: kept only while
/// the object still stands for the live global.
pub open spec fn names_after_name_event(
    globals: Map<u32, u32>,
    names: Map<u32, String>,
    global_name: u32,
    protocol_id: u32,
    name: String,
) -> Map<u32, String> {
    if globals.contains_key(global_name) && globals[global_name] == protocol_id {
        names.insert(protocol_id, name)
    } else {
        names
    }
}

/// Once an output global is removed, name events that still arrive for its
/// object change nothing.
pub proof fn lemma_removed_output_stays_ignored(
    globals: Map<u32, u32>,
    names: Map<u32, String>,
    global_name: u32,
    protocol_id: u32,
    name: String,
)
    ensures
        names_after_name_event(globals.remove(global_name), names, global_name, protocol_id, name)
            == names,
{
}

/// The outputs recorded for toplevel `id`, or none when it is unknown.
pub open spec fn toplevel_outputs_or_none(toplevels: Map<u32, ToplevelRecord>, id: u32) -> Set<u32> {
    if toplevels.contains_key(id) {
        toplevels[id].outputs@
    } else {
        Set::empty()
    }
}

} // verus!
