use vstd::prelude::*;
use vstd::multiset::Multiset;

verus! {

broadcast use {vstd::multiset::group_multiset_axioms, vstd::seq_lib::group_to_multiset_ensures};

/// Why the output names could not be listed.
#[derive(Debug, Clone, Copy, PartialEq, Eq, Structural)]
pub enum OutputNamesError {
    /// The `wl_output` global with this registry name is older than version
    /// 4 and has no stable name.
    UnnamedOutput(u32),
    /// The compositor named no output.
    NoNamedOutputs,
}

/// A `wl_output` global carries its stable name from version 4 on.
pub fn output_global_is_named(version: u32) -> (named: bool)
    ensures
        named == (version >= 4),
{
    version >= 4
}

pub open spec fn pair_views(pairs: Seq<(u32, String)>) -> Seq<(u32, Seq<char>)> {
    pairs.map_values(|p: (u32, String)| (p.0, p.1@))
}

pub open spec fn name_views(names: Seq<String>) -> Seq<Seq<char>> {
    names.map_values(|n: String| n@)
}

pub open spec fn names_in(pairs: Seq<(u32, Seq<char>)>) -> Seq<Seq<char>> {
    pairs.map_values(|p: (u32, Seq<char>)| p.1)
}

/// The registry names never decrease along the sequence.
pub open spec fn keys_ordered(pairs: Seq<(u32, Seq<char>)>) -> bool {
    forall|i: int, j: int| 0 <= i < j < pairs.len() ==> pairs[i].0 <= pairs[j].0
}

fn min_key_index(pairs: &Vec<(u32, String)>) -> (m: usize)
    requires
        pairs@.len() > 0,
    ensures
        m < pairs@.len(),
        forall|j: int| 0 <= j < pairs@.len() ==> pairs@[m as int].0 <= pairs@[j].0,
{
    let mut m: usize = 0;
    let mut k: usize = 1;
    while k < pairs.len()
        invariant
            m < pairs@.len(),
            1 <= k <= pairs@.len(),
            forall|j: int| 0 <= j < k ==> pairs@[m as int].0 <= pairs@[j].0,
        decreases pairs@.len() - k,
    {
        if pairs[k].0 < pairs[m].0 {
            m = k;
        }
        k = k + 1;
    }
    m
}

/// The named outputs ordered by their registry names (the order in which the
/// compositor announced them).
pub fn sort_by_global_name(names: Vec<(u32, String)>) -> (sorted: Vec<(u32, String)>)
    ensures
        pair_views(sorted@).to_multiset() == pair_views(names@).to_multiset(),
        keys_ordered(pair_views(sorted@)),
{
    let ghost input = pair_views(names@);
    let mut rest = names;
    let mut sorted: Vec<(u32, String)> = Vec::new();
    proof {
        assert(pair_views(sorted@) =~= Seq::<(u32, Seq<char>)>::empty());
        assert(pair_views(sorted@).to_multiset() =~= Multiset::empty());
        assert(pair_views(sorted@).to_multiset().add(pair_views(rest@).to_multiset()) =~= input.to_multiset());
    }
    while rest.len() > 0
        invariant
            pair_views(sorted@).to_multiset().add(pair_views(rest@).to_multiset()) == input.to_multiset(),
            keys_ordered(pair_views(sorted@)),
            forall|i: int, j: int| 0 <= i < sorted@.len() && 0 <= j < rest@.len() ==> sorted@[i].0 <= rest@[j].0,
        decreases rest@.len(),
    {
        let ghost old_sorted = pair_views(sorted@);
        let ghost old_rest = pair_views(rest@);
        let m = min_key_index(&rest);
        let ghost x = old_rest[m as int];
        let ghost raw_rest = rest@;
        let item = rest.remove(m);
        sorted.push(item);
        proof {
            assert(pair_views(rest@) =~= old_rest.remove(m as int));
            assert(pair_views(sorted@) =~= old_sorted.push(x));
            vstd::seq_lib::to_multiset_remove(old_rest, m as int);
            vstd::seq_lib::to_multiset_build(old_sorted, x);
            assert(old_rest.to_multiset().count(x) > 0);
            assert(pair_views(sorted@).to_multiset().add(pair_views(rest@).to_multiset()) =~= input.to_multiset());
            assert forall|i: int, j: int| 0 <= i < j < pair_views(sorted@).len() implies pair_views(sorted@)[i].0
                <= pair_views(sorted@)[j].0 by {
                if j == sorted@.len() - 1 {
                    assert(sorted@[i].0 <= old_rest[m as int].0);
                }
            }
            assert forall|i: int, j: int| 0 <= i < sorted@.len() && 0 <= j < rest@.len() implies sorted@[i].0
                <= rest@[j].0 by {
                if j < m {
                    assert(rest@[j] == raw_rest[j]);
                } else {
                    assert(rest@[j] == raw_rest[j + 1]);
                }
            }
        }
    }
    proof {
        assert(pair_views(rest@) =~= Seq::<(u32, Seq<char>)>::empty());
        assert(pair_views(rest@).to_multiset() =~= Multiset::empty());
        assert(pair_views(sorted@).to_multiset() =~= pair_views(sorted@).to_multiset().add(pair_views(rest@).to_multiset()));
    }
    sorted
}

/// The output names a compositor announced, ordered by registry name; an
/// empty list is refused. (Outputs too old to carry a name are refused by the
/// caller before it asks for names, with `UnnamedOutput`.)
pub fn output_names(probed: Vec<(u32, String)>) -> (names: Result<Vec<String>, OutputNamesError>)
    ensures
        names is Ok <==> probed@.len() > 0,
        probed@.len() == 0 <==> names == Err::<Vec<String>, OutputNamesError>(OutputNamesError::NoNamedOutputs),
        names matches Ok(list) ==> list@.len() == probed@.len(),
        names matches Ok(list) ==> exists|sorted: Seq<(u32, Seq<char>)>|
            sorted.to_multiset() == pair_views(probed@).to_multiset() && keys_ordered(sorted)
                && name_views(list@) == names_in(sorted),
{
    if probed.len() == 0 {
        return Err(OutputNamesError::NoNamedOutputs);
    }
    let ghost n = probed@.len();
    let sorted = sort_by_global_name(probed);
    let ghost s = pair_views(sorted@);
    let mut list: Vec<String> = Vec::new();
    for i in 0..sorted.len()
        invariant
            s == pair_views(sorted@),
            name_views(list@) == names_in(s.take(i as int)),
    {
        let ghost before = list@;
        let name = sorted[i].1.clone();
        assert(name@ == s[i as int].1);
        list.push(name);
        assert(list@ =~= before.push(name));
        assert(s.take(i + 1) =~= s.take(i as int).push(s[i as int]));
        assert(name_views(before).len() == i);
        assert(name_views(list@).len() == i + 1);
        assert(names_in(s.take(i + 1)).len() == i + 1);
        assert forall|k: int| 0 <= k <= i implies #[trigger] name_views(list@)[k] == names_in(s.take(i + 1))[k] by {
            assert(name_views(list@)[k] == list@[k]@);
            assert(names_in(s.take(i + 1))[k] == s.take(i + 1)[k].1);
            if k < i {
                assert(list@[k] == before[k]);
                assert(name_views(before)[k] == before[k]@);
                assert(name_views(before)[k] == names_in(s.take(i as int))[k]);
                assert(names_in(s.take(i as int))[k] == s.take(i as int)[k].1);
            }
        }
        assert(name_views(list@) =~= names_in(s.take(i + 1)));
    }
    proof {
        assert(s.take(s.len() as int) =~= s);
        assert(s.to_multiset().len() == s.len());
    }
    Ok(list)
}

} // verus!
