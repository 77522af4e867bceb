//! The per-operator tally and the most-frequent-operators list.
//!
//! Every operator name is tallied in first-seen order; the report lists the
//! ten most frequent names, sorted by occurrence count, ties kept in
//! first-seen order.

use vstd::prelude::*;
use crate::bytes::{bytes_eq, clone_bytes};
use crate::records::{OperatorCount, tally_view};

verus! {

/// One tally entry: an operator name with its occurrence count.
pub type TallyEntry = (Seq<u8>, int);

/// The tally after one more occurrence of `name`: the first entry of that
/// name counts one more; an unseen name joins at the end with count one.
pub open spec fn tally_bump(t: Seq<TallyEntry>, name: Seq<u8>) -> Seq<TallyEntry>
    decreases t.len(),
{
    if t.len() == 0 {
        seq![(name, 1int)]
    } else if t[0].0 == name {
        seq![(name, t[0].1 + 1)] + t.drop_first()
    } else {
        seq![t[0]] + tally_bump(t.drop_first(), name)
    }
}

/// A bump leaves a name-free prefix alone.
proof fn lemma_tally_bump_split(t: Seq<TallyEntry>, name: Seq<u8>, k: int)
    requires
        0 <= k <= t.len(),
        forall|j: int| 0 <= j < k ==> t[j].0 != name,
    ensures
        tally_bump(t, name) == t.subrange(0, k) + tally_bump(t.subrange(k, t.len() as int), name),
    decreases k,
{
    if k == 0 {
        assert(t.subrange(0, t.len() as int) =~= t);
        assert(t.subrange(0, 0) + tally_bump(t, name) =~= tally_bump(t, name));
    } else {
        let rest = t.drop_first();
        lemma_tally_bump_split(rest, name, k - 1);
        assert(rest.subrange(0, k - 1) =~= t.subrange(1, k));
        assert(rest.subrange(k - 1, rest.len() as int) =~= t.subrange(k, t.len() as int));
        assert(seq![t[0]] + (t.subrange(1, k) + tally_bump(t.subrange(k, t.len() as int), name))
            =~= t.subrange(0, k) + tally_bump(t.subrange(k, t.len() as int), name));
    }
}

/// Bumping a name already present raises exactly its first entry by one.
pub proof fn lemma_tally_bump_found(t: Seq<TallyEntry>, name: Seq<u8>, k: int)
    requires
        0 <= k < t.len(),
        forall|j: int| 0 <= j < k ==> t[j].0 != name,
        t[k].0 == name,
    ensures
        tally_bump(t, name) == t.update(k, (name, t[k].1 + 1)),
{
    lemma_tally_bump_split(t, name, k);
    let tail = t.subrange(k, t.len() as int);
    assert(tail[0].0 == name);
    assert(tail.drop_first() =~= t.subrange(k + 1, t.len() as int));
    assert(t.subrange(0, k) + (seq![(name, tail[0].1 + 1)] + t.subrange(k + 1, t.len() as int))
        =~= t.update(k, (name, t[k].1 + 1)));
}

/// Bumping an unseen name appends a fresh entry of count one.
pub proof fn lemma_tally_bump_missing(t: Seq<TallyEntry>, name: Seq<u8>)
    requires
        forall|j: int| 0 <= j < t.len() ==> t[j].0 != name,
    ensures
        tally_bump(t, name) == t.push((name, 1int)),
{
    lemma_tally_bump_split(t, name, t.len() as int);
    assert(t.subrange(0, t.len() as int) =~= t);
    assert(t.subrange(t.len() as int, t.len() as int).len() == 0);
    assert(t + seq![(name, 1int)] =~= t.push((name, 1int)));
}

/// Records one more occurrence of `name`.
pub fn tally_bump_exec(t: &mut Vec<OperatorCount>, name: &Vec<u8>)
    requires
        forall|k: int| 0 <= k < old(t)@.len() ==> (#[trigger] old(t)@[k]).occurrences < usize::MAX,
    ensures
        tally_view(final(t)@) == tally_bump(tally_view(old(t)@), name@),
{
    let n = t.len();
    let mut k: usize = 0;
    while k < n
        invariant
            n == t@.len(),
            t@ == old(t)@,
            forall|j: int| 0 <= j < t@.len() ==> (#[trigger] t@[j]).occurrences < usize::MAX,
            0 <= k <= n,
            forall|j: int| 0 <= j < k ==> tally_view(t@)[j].0 != name@,
        decreases n - k,
    {
        if bytes_eq(t[k].operator.as_slice(), name.as_slice()) {
            let occ = t[k].occurrences;
            let operator = clone_bytes(&t[k].operator);
            proof {
                assert(t@[k as int].occurrences < usize::MAX);
            }
            t.set(k, OperatorCount { operator, occurrences: occ + 1 });
            proof {
                lemma_tally_bump_found(tally_view(old(t)@), name@, k as int);
                assert(tally_view(t@) =~= tally_view(old(t)@).update(
                    k as int,
                    (name@, tally_view(old(t)@)[k as int].1 + 1),
                ));
            }
            return;
        }
        k = k + 1;
    }
    t.push(OperatorCount { operator: clone_bytes(name), occurrences: 1 });
    proof {
        lemma_tally_bump_missing(tally_view(old(t)@), name@);
        assert(tally_view(t@) =~= tally_view(old(t)@).push((name@, 1int)));
    }
}

/// `x` inserted into a count-descending list, after every entry whose count
/// is at least its own, so that equal counts keep their earlier order.
pub open spec fn insert_desc(s: Seq<TallyEntry>, x: TallyEntry) -> Seq<TallyEntry>
    decreases s.len(),
{
    if s.len() == 0 {
        seq![x]
    } else if x.1 > s[0].1 {
        seq![x] + s
    } else {
        seq![s[0]] + insert_desc(s.drop_first(), x)
    }
}

/// A tally stably sorted by occurrence count, highest first.
pub open spec fn sort_desc(s: Seq<TallyEntry>) -> Seq<TallyEntry>
    decreases s.len(),
{
    if s.len() == 0 {
        Seq::empty()
    } else {
        insert_desc(sort_desc(s.drop_last()), s.last())
    }
}

/// The most-frequent list: the sorted tally cut to ten entries.
pub open spec fn spec_top_operators(t: Seq<TallyEntry>) -> Seq<TallyEntry> {
    let s = sort_desc(t);
    if s.len() <= 10 {
        s
    } else {
        s.subrange(0, 10)
    }
}

/// Whether a tally list is ordered by occurrence count, highest first.
pub open spec fn sorted_desc(s: Seq<TallyEntry>) -> bool {
    forall|i: int, j: int| 0 <= i <= j < s.len() ==> s[i].1 >= s[j].1
}

/// Insertion into a count-descending list keeps it descending.
proof fn lemma_insert_desc_sorted(s: Seq<TallyEntry>, x: TallyEntry)
    requires
        sorted_desc(s),
    ensures
        sorted_desc(insert_desc(s, x)),
    decreases s.len(),
{
    if s.len() == 0 {
    } else if x.1 > s[0].1 {
        let r = insert_desc(s, x);
        assert forall|i: int, j: int| 0 <= i <= j < r.len() implies r[i].1 >= r[j].1 by {
            if i > 0 {
                assert(r[i] == s[i - 1]);
            }
            if j > 0 {
                assert(r[j] == s[j - 1]);
            }
        }
    } else {
        let rest = s.drop_first();
        assert(forall|i: int, j: int| 0 <= i <= j < rest.len() ==> rest[i].1 >= rest[j].1);
        lemma_insert_desc_sorted(rest, x);
        lemma_insert_desc_elems(rest, x);
        let r = insert_desc(s, x);
        let ri = insert_desc(rest, x);
        assert forall|i: int, j: int| 0 <= i <= j < r.len() implies r[i].1 >= r[j].1 by {
            if i > 0 {
                assert(r[i] == ri[i - 1]);
            }
            if j > 0 {
                assert(r[j] == ri[j - 1]);
                if i == 0 {
                    if ri[j - 1] != x {
                        let u = choose|u: int| 0 <= u < rest.len() && rest[u] == ri[j - 1];
                        assert(s[u + 1] == rest[u]);
                        assert(s[0].1 >= s[u + 1].1);
                    }
                    assert(ri[j - 1].1 <= s[0].1);
                }
            }
        }
    }
}

/// Every count in an insertion result was in the list or is the new one.
proof fn lemma_insert_desc_elems(s: Seq<TallyEntry>, x: TallyEntry)
    ensures
        forall|k: int|
            0 <= k < insert_desc(s, x).len() ==> (#[trigger] insert_desc(s, x)[k]) == x
                || s.contains(insert_desc(s, x)[k]),
    decreases s.len(),
{
    if s.len() == 0 {
    } else if x.1 > s[0].1 {
        let r = insert_desc(s, x);
        assert forall|k: int| 0 <= k < r.len() implies (#[trigger] r[k]) == x || s.contains(
            r[k],
        ) by {
            if k > 0 {
                assert(r[k] == s[k - 1]);
            }
        }
    } else {
        let rest = s.drop_first();
        lemma_insert_desc_elems(rest, x);
        let r = insert_desc(s, x);
        let ri = insert_desc(rest, x);
        assert forall|k: int| 0 <= k < r.len() implies (#[trigger] r[k]) == x || s.contains(
            r[k],
        ) by {
            if k == 0 {
                assert(s.contains(s[0]));
            } else {
                assert(r[k] == ri[k - 1]);
                if ri[k - 1] != x {
                    let u = choose|u: int| 0 <= u < rest.len() && rest[u] == ri[k - 1];
                    assert(s[u + 1] == ri[k - 1]);
                }
            }
        }
    }
}

/// The sorted tally really is ordered by count, highest first, and so is
/// every cut of it the report takes.
pub proof fn lemma_sort_desc_sorted(s: Seq<TallyEntry>)
    ensures
        sorted_desc(sort_desc(s)),
        sorted_desc(spec_top_operators(s)),
    decreases s.len(),
{
    if s.len() == 0 {
    } else {
        lemma_sort_desc_sorted(s.drop_last());
        lemma_insert_desc_sorted(sort_desc(s.drop_last()), s.last());
    }
}

/// Insertion grows a list by one.
proof fn lemma_insert_desc_len(s: Seq<TallyEntry>, x: TallyEntry)
    ensures
        insert_desc(s, x).len() == s.len() + 1,
    decreases s.len(),
{
    if s.len() > 0 && !(x.1 > s[0].1) {
        lemma_insert_desc_len(s.drop_first(), x);
    }
}

/// Sorting keeps the length.
pub proof fn lemma_sort_desc_len(s: Seq<TallyEntry>)
    ensures
        sort_desc(s).len() == s.len(),
    decreases s.len(),
{
    if s.len() > 0 {
        lemma_sort_desc_len(s.drop_last());
        lemma_insert_desc_len(sort_desc(s.drop_last()), s.last());
    }
}

/// Where the insertion lands: right before the first entry its count beats.
proof fn lemma_insert_desc_at(s: Seq<TallyEntry>, x: TallyEntry, j: int)
    requires
        0 <= j <= s.len(),
        forall|u: int| 0 <= u < j ==> !(x.1 > s[u].1),
        j == s.len() || x.1 > s[j].1,
    ensures
        insert_desc(s, x) == s.subrange(0, j) + seq![x] + s.subrange(j, s.len() as int),
    decreases j,
{
    if j == 0 {
        if s.len() == 0 {
            assert(insert_desc(s, x) =~= s.subrange(0, 0) + seq![x] + s.subrange(0, 0));
        } else {
            assert(seq![x] + s =~= s.subrange(0, 0) + seq![x] + s.subrange(0, s.len() as int));
        }
    } else {
        let rest = s.drop_first();
        lemma_insert_desc_at(rest, x, j - 1);
        assert(rest.subrange(0, j - 1) =~= s.subrange(1, j));
        assert(rest.subrange(j - 1, rest.len() as int) =~= s.subrange(j, s.len() as int));
        assert(seq![s[0]] + (s.subrange(1, j) + seq![x] + s.subrange(j, s.len() as int)) =~= s
            .subrange(0, j) + seq![x] + s.subrange(j, s.len() as int));
    }
}

/// The slot a new entry lands in: right before the first one its count
/// beats, at the end when it beats none.
fn insert_pos(out: &Vec<OperatorCount>, occ: usize) -> (j: usize)
    ensures
        0 <= j <= out@.len(),
        forall|u: int| 0 <= u < j ==> !(occ as int > tally_view(out@)[u].1),
        j == out@.len() || occ as int > tally_view(out@)[j as int].1,
{
    let mut j: usize = 0;
    while j < out.len() && !(occ > out[j].occurrences)
        invariant
            0 <= j <= out@.len(),
            forall|u: int| 0 <= u < j ==> !(occ as int > tally_view(out@)[u].1),
        decreases out@.len() - j,
    {
        j = j + 1;
    }
    j
}

/// Builds the most-frequent-operators list of a tally.
pub fn top_operators(t: &Vec<OperatorCount>) -> (r: Vec<OperatorCount>)
    ensures
        tally_view(r@) == spec_top_operators(tally_view(t@)),
{
    let mut out: Vec<OperatorCount> = Vec::new();
    let mut i: usize = 0;
    while i < t.len()
        invariant
            0 <= i <= t@.len(),
            tally_view(out@) == sort_desc(tally_view(t@).subrange(0, i as int)),
            out@.len() == i,
        decreases t@.len() - i,
    {
        let x = OperatorCount {
            operator: clone_bytes(&t[i].operator),
            occurrences: t[i].occurrences,
        };
        let j = insert_pos(&out, x.occurrences);
        proof {
            lemma_insert_desc_at(tally_view(out@), x@, j as int);
        }
        out.insert(j, x);
        proof {
            let pre = tally_view(t@).subrange(0, i as int);
            let cur = tally_view(t@).subrange(0, i + 1);
            assert(cur.drop_last() =~= pre);
            assert(cur.last() == tally_view(t@)[i as int]);
            assert(tally_view(out@) =~= sort_desc(pre).subrange(0, j as int) + seq![
                tally_view(t@)[i as int],
            ] + sort_desc(pre).subrange(j as int, sort_desc(pre).len() as int));
        }
        i = i + 1;
    }
    proof {
        assert(tally_view(t@).subrange(0, t@.len() as int) =~= tally_view(t@));
        lemma_sort_desc_len(tally_view(t@));
    }
    let ghost full = sort_desc(tally_view(t@));
    proof {
        assert(full.subrange(0, full.len() as int) =~= full);
    }
    while out.len() > 10
        invariant
            tally_view(out@) == full.subrange(0, out@.len() as int),
            out@.len() <= full.len(),
            out@.len() >= 10 || out@.len() == full.len(),
        decreases out@.len(),
    {
        out.pop();
        proof {
            assert(tally_view(out@) =~= full.subrange(0, out@.len() as int));
        }
    }
    proof {
        if full.len() <= 10 {
            assert(full.subrange(0, full.len() as int) =~= full);
        }
    }
    out
}

} // verus!
