use vstd::prelude::*;

verus! {

/// The last `max` items of `items`, or all of them when there are fewer.
pub open spec fn recent_window<T>(items: Seq<T>, max: nat) -> Seq<T> {
    if items.len() <= max {
        items
    } else {
        items.subrange(items.len() - max, items.len() as int)
    }
}

fn keep_tail<T: Copy>(items: &Vec<T>, from: usize) -> (tail: Vec<T>)
    requires
        from <= items@.len(),
    ensures
        tail@ == items@.subrange(from as int, items@.len() as int),
{
    let mut tail: Vec<T> = Vec::new();
    let n = items.len();
    let mut i = from;
    while i < n
        invariant
            n == items@.len(),
            from <= i <= n,
            tail@ == items@.subrange(from as int, i as int),
        decreases n - i,
    {
        tail.push(items[i]);
        i += 1;
        assert(tail@ =~= items@.subrange(from as int, i as int));
    }
    tail
}

/// Appends `incoming` to a sample backlog that keeps only the latest
/// `max_samples` samples.
pub fn append_recent<T: Copy>(retained: &mut Vec<T>, incoming: &[T], max_samples: usize)
    requires
        old(retained)@.len() + incoming@.len() <= usize::MAX,
    ensures
        final(retained)@ == recent_window(old(retained)@ + incoming@, max_samples as nat),
{
    let ghost all = old(retained)@ + incoming@;
    let incoming_len = incoming.len();
    if max_samples == 0 {
        retained.clear();
        assert(retained@ =~= recent_window(all, 0));
        return;
    }
    if incoming_len >= max_samples {
        let mut kept: Vec<T> = Vec::new();
        let mut i = incoming_len - max_samples;
        while i < incoming_len
            invariant
                incoming_len == incoming@.len(),
                max_samples <= incoming_len,
                incoming_len - max_samples <= i <= incoming_len,
                kept@ == incoming@.subrange(incoming_len - max_samples, i as int),
            decreases incoming_len - i,
        {
            kept.push(incoming[i]);
            i += 1;
            assert(kept@ =~= incoming@.subrange(incoming_len - max_samples, i as int));
        }
        *retained = kept;
        assert(retained@ =~= recent_window(all, max_samples as nat));
        return;
    }
    let total = retained.len() + incoming_len;
    let overflow: usize = if total > max_samples {
        total - max_samples
    } else {
        0
    };
    if overflow > 0 {
        *retained = keep_tail(retained, overflow);
    }
    let ghost kept = retained@;
    for i in 0..incoming_len
        invariant
            incoming_len == incoming@.len(),
            retained@ == kept + incoming@.take(i as int),
    {
        retained.push(incoming[i]);
        assert(retained@ =~= kept + incoming@.take(i + 1));
    }
    assert(incoming@.take(incoming_len as int) =~= incoming@);
    assert(retained@ =~= recent_window(all, max_samples as nat));
}

/// Appends `count` copies of `fill` to a backlog that keeps only the latest
/// `max_samples` samples.
pub fn append_recent_filled<T: Copy>(retained: &mut Vec<T>, count: usize, fill: T, max_samples: usize)
    requires
        old(retained)@.len() + count <= usize::MAX,
    ensures
        final(retained)@ == recent_window(
            old(retained)@ + Seq::new(count as nat, |i: int| fill),
            max_samples as nat,
        ),
{
    let mut incoming: Vec<T> = Vec::new();
    for i in 0..count
        invariant
            incoming@ == Seq::new(i as nat, |k: int| fill),
    {
        incoming.push(fill);
        assert(incoming@ =~= Seq::new((i + 1) as nat, |k: int| fill));
    }
    append_recent(retained, incoming.as_slice(), max_samples);
}

} // verus!

verus! {

/// The backlog never exceeds its bound, keeps as many samples as it can, and
/// always ends with the newest ones.
pub proof fn lemma_recent_window_is_bounded_suffix<T>(items: Seq<T>, max: nat)
    ensures
        recent_window(items, max).len() == if items.len() <= max {
            items.len()
        } else {
            max
        },
        forall|i: int|
            0 <= i < recent_window(items, max).len() ==> #[trigger] recent_window(items, max)[i]
                == items[items.len() - recent_window(items, max).len() + i],
{
}

} // verus!
