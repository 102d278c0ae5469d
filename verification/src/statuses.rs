use vstd::prelude::*;
use vstd::string::StringExecFns;

use crate::text::{lemma_precedes_irreflexive, lemma_precedes_total, lemma_precedes_transitive, precedes, str_equals, str_precedes};

verus! {

/// The status tables of the outputs, by output name: each output's table as
/// shown when it is the only output, and as shown among several.
pub open spec fn status_views(entries: Seq<(String, String, String)>) -> Seq<(Seq<char>, Seq<char>, Seq<char>)> {
    entries.map_values(|e: (String, String, String)| (e.0@, e.1@, e.2@))
}

/// Output names strictly increase, so each output has one entry, in name
/// order (as in an ordered map keyed by output name).
pub open spec fn statuses_ascending(entries: Seq<(Seq<char>, Seq<char>, Seq<char>)>) -> bool {
    forall|i: int, j: int| 0 <= i < j < entries.len() ==> precedes(entries[i].0, entries[j].0)
}

/// Whether `output` has an entry.
pub open spec fn has_status(entries: Seq<(Seq<char>, Seq<char>, Seq<char>)>, output: Seq<char>) -> bool {
    exists|i: int| 0 <= i < entries.len() && #[trigger] entries[i].0 == output
}

/// The two tables of `output` (meaningful where it has an entry).
pub open spec fn status_of(entries: Seq<(Seq<char>, Seq<char>, Seq<char>)>, output: Seq<char>) -> (Seq<char>, Seq<char>) {
    let i = choose|i: int| 0 <= i < entries.len() && #[trigger] entries[i].0 == output;
    (entries[i].1, entries[i].2)
}

/// Every output's table in its several-outputs form, each after a blank line.
pub open spec fn all_sections(entries: Seq<(Seq<char>, Seq<char>, Seq<char>)>) -> Seq<char>
    decreases entries.len(),
{
    if entries.len() == 0 {
        Seq::empty()
    } else {
        all_sections(entries.drop_last()) + "\n\n"@ + entries.last().2
    }
}

/// What follows the `[orchestrator]` table: a single output's own table, or
/// the tables of several outputs in name order, each after a blank line.
pub open spec fn status_sections(entries: Seq<(Seq<char>, Seq<char>, Seq<char>)>) -> Seq<char> {
    if entries.len() == 1 {
        "\n\n"@ + entries[0].1
    } else {
        all_sections(entries)
    }
}

proof fn lemma_status_index(entries: Seq<(Seq<char>, Seq<char>, Seq<char>)>, k: int)
    requires
        statuses_ascending(entries),
        0 <= k < entries.len(),
    ensures
        has_status(entries, entries[k].0),
        status_of(entries, entries[k].0) == (entries[k].1, entries[k].2),
{
    let i = choose|i: int| 0 <= i < entries.len() && #[trigger] entries[i].0 == entries[k].0;
    if i < k {
        lemma_precedes_irreflexive(entries[k].0);
    } else if k < i {
        lemma_precedes_irreflexive(entries[k].0);
    }
}

/// The status tables of the running outputs, kept in output-name order.
#[derive(Debug)]
pub struct OutputStatuses {
    entries: Vec<(String, String, String)>,
}

impl View for OutputStatuses {
    type V = Seq<(Seq<char>, Seq<char>, Seq<char>)>;

    closed spec fn view(&self) -> Seq<(Seq<char>, Seq<char>, Seq<char>)> {
        status_views(self.entries@)
    }
}

impl OutputStatuses {
    #[verifier::type_invariant]
    closed spec fn inv(self) -> bool {
        statuses_ascending(status_views(self.entries@))
    }

    pub fn new() -> (statuses: Self)
        ensures
            statuses@ == Seq::<(Seq<char>, Seq<char>, Seq<char>)>::empty(),
    {
        let statuses = OutputStatuses { entries: Vec::new() };
        assert(statuses@ =~= Seq::<(Seq<char>, Seq<char>, Seq<char>)>::empty());
        statuses
    }

    /// The number of outputs with a status.
    pub fn len(&self) -> (count: usize)
        ensures
            count == self@.len(),
    {
        self.entries.len()
    }

    /// Records the tables of `output` (replacing its earlier ones), or, with
    /// `None`, forgets the output.
    pub fn update(&mut self, output: String, tables: Option<(String, String)>)
        ensures
            statuses_ascending(final(self)@),
            forall|n: Seq<char>| #[trigger] has_status(final(self)@, n) <==> (if n == output@ {
                tables is Some
            } else {
                has_status(old(self)@, n)
            }),
            tables matches Some(t) ==> status_of(final(self)@, output@) == (t.0@, t.1@),
            forall|n: Seq<char>| n != output@ && has_status(old(self)@, n) ==> #[trigger] status_of(final(self)@, n)
                == status_of(old(self)@, n),
    {
        proof {
            use_type_invariant(&*self);
        }
        let mut entries: Vec<(String, String, String)> = Vec::new();
        std::mem::swap(&mut entries, &mut self.entries);
        let ghost before = status_views(entries@);
        let n = entries.len();
        let mut p: usize = 0;
        let mut searching = true;
        while searching && p < n
            invariant
                status_views(entries@) == before,
                n == before.len(),
                p <= n,
                forall|i: int| 0 <= i < p ==> precedes(#[trigger] before[i].0, output@),
                !searching ==> p < n && !precedes(before[p as int].0, output@),
            decreases n - p, if searching { 1int } else { 0int },
        {
            if str_precedes(entries[p].0.as_str(), output.as_str()) {
                p = p + 1;
            } else {
                searching = false;
            }
        }
        let present = p < n && str_equals(entries[p].0.as_str(), output.as_str());
        if present {
            let _ = entries.remove(p);
        }
        let ghost rest = status_views(entries@);
        proof {
            if present {
                assert(rest =~= before.remove(p as int));
            } else {
                assert(rest =~= before);
                if p < n {
                    lemma_precedes_total(before[p as int].0, output@);
                }
            }
            // Every name before `p` comes before `output`; every name from
            // `p` on comes after it.
            assert forall|i: int| 0 <= i < rest.len() implies (if i < p {
                precedes(#[trigger] rest[i].0, output@)
            } else {
                precedes(output@, rest[i].0)
            }) by {
                if i < p {
                    assert(rest[i] == before[i]);
                } else {
                    let k = if present { i + 1 } else { i };
                    assert(rest[i] == before[k]);
                    if k > p {
                        if !present {
                            lemma_precedes_total(before[p as int].0, output@);
                        }
                        if present {
                            assert(before[p as int].0 == output@);
                        } else {
                            lemma_precedes_transitive(output@, before[p as int].0, before[k].0);
                        }
                    }
                }
            }
        }
        match tables {
            Some((single, several)) => {
                entries.insert(p, (output.clone(), single, several));
            },
            None => {},
        }
        proof {
            let after = status_views(entries@);
            assert forall|i: int, j: int| 0 <= i < j < after.len() implies precedes(after[i].0, after[j].0) by {
                if tables is Some {
                    if j < p {
                        assert(after[i] == rest[i] && after[j] == rest[j]);
                        if present {
                            assert(rest[i] == before[i] && rest[j] == before[j]);
                        } else {
                            assert(rest[i] == before[i] && rest[j] == before[j]);
                        }
                    } else if j == p {
                        assert(after[i] == rest[i]);
                    } else if i < p {
                        assert(after[i] == rest[i] && after[j] == rest[j - 1]);
                        lemma_precedes_transitive(rest[i].0, output@, rest[j - 1].0);
                    } else if i == p {
                        assert(after[j] == rest[j - 1]);
                    } else {
                        assert(after[i] == rest[i - 1] && after[j] == rest[j - 1]);
                        let ki = if present { i } else { i - 1 };
                        let kj = if present { j } else { j - 1 };
                        assert(rest[i - 1] == before[ki] && rest[j - 1] == before[kj]);
                    }
                } else {
                    assert(after == rest);
                    let ki = if present && i >= p { i + 1 } else { i };
                    let kj = if present && j >= p { j + 1 } else { j };
                    assert(rest[i] == before[ki] && rest[j] == before[kj]);
                }
            }
            // Where each old entry went.
            let shift = |k: int| -> int {
                if k < p {
                    k
                } else if present && k == p {
                    -1
                } else {
                    let r = if present { k - 1 } else { k };
                    if tables is Some { r + 1 } else { r }
                }
            };
            assert forall|k: int| 0 <= k < before.len() && before[k].0 != output@ implies 0 <= shift(k) < after.len()
                && after[shift(k)] == before[k] by {
                if k < p {
                } else {
                    if present && k == p {
                        assert(before[k].0 == output@);
                    }
                }
            }
            assert forall|q: Seq<char>| #[trigger] has_status(after, q) <==> (if q == output@ {
                tables is Some
            } else {
                has_status(before, q)
            }) by {
                if has_status(after, q) {
                    let i = choose|i: int| 0 <= i < after.len() && #[trigger] after[i].0 == q;
                    if tables is Some && i == p {
                        assert(after[i].0 == output@);
                    } else {
                        let r = if tables is Some && i > p { i - 1 } else { i };
                        assert(after[i] == rest[r]);
                        let k = if present && r >= p { r + 1 } else { r };
                        assert(rest[r] == before[k]);
                        if q == output@ {
                            lemma_precedes_irreflexive(output@);
                        }
                    }
                }
                if q != output@ && has_status(before, q) {
                    let k = choose|k: int| 0 <= k < before.len() && #[trigger] before[k].0 == q;
                    assert(after[shift(k)].0 == q);
                }
                if q == output@ && tables is Some {
                    assert(after[p as int].0 == output@);
                }
            }
            if tables is Some {
                assert(after[p as int].0 == output@);
                lemma_status_index(after, p as int);
            }
            assert forall|q: Seq<char>| q != output@ && has_status(before, q) implies #[trigger] status_of(after, q)
                == status_of(before, q) by {
                let k = choose|k: int| 0 <= k < before.len() && #[trigger] before[k].0 == q;
                lemma_status_index(before, k);
                lemma_status_index(after, shift(k));
            }
        }
        self.entries = entries;
    }

    /// Forgets every output.
    pub fn clear(&mut self)
        ensures
            final(self)@ == Seq::<(Seq<char>, Seq<char>, Seq<char>)>::empty(),
    {
        self.entries = Vec::new();
        assert(self@ =~= Seq::<(Seq<char>, Seq<char>, Seq<char>)>::empty());
    }

    /// The text that follows the `[orchestrator]` table.
    pub fn render(&self) -> (text: String)
        ensures
            text@ == status_sections(self@),
    {
        let ghost s = self@;
        if self.entries.len() == 1 {
            return "\n\n".to_string().concat(self.entries[0].1.as_str());
        }
        let mut text = String::new();
        assert(s.take(0) =~= Seq::<(Seq<char>, Seq<char>, Seq<char>)>::empty());
        assert(text@ =~= Seq::<char>::empty());
        for i in 0..self.entries.len()
            invariant
                s == status_views(self.entries@),
                text@ == all_sections(s.take(i as int)),
        {
            assert(s.take(i + 1).drop_last() =~= s.take(i as int));
            text = text.concat("\n\n").concat(self.entries[i].2.as_str());
        }
        assert(s.take(self.entries@.len() as int) =~= s);
        text
    }
}

} // verus!
