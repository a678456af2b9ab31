//! Track navigation over a directory listing.
//!
//! The navigator gets the sibling files of the currently playing file,
//! sorts them by plain lexicographic order of their full path — the
//! total order that defines "next" and "previous" — locates the current
//! file by exact equality, and hands back the neighbouring entry.  At
//! the first file there is no previous entry and at the last file there
//! is no next entry: navigation never wraps around.

use vstd::prelude::*;
use crate::text::lemma_lex_le_total;
use crate::text::lemma_lex_le_trans;
use crate::text::lex_le;
use crate::text::lex_le_exec;
use crate::text::str_eq;
use crate::text::views;

verus! {

/// Inserts `x` into `t` before the first entry it is less than or
/// equal to.
pub open spec fn insert_lex(t: Seq<Seq<char>>, x: Seq<char>) -> Seq<Seq<char>>
    decreases t.len(),
{
    if t.len() == 0 {
        seq![x]
    } else if lex_le(x, t[0]) {
        seq![x] + t
    } else {
        seq![t[0]] + insert_lex(t.drop_first(), x)
    }
}

/// The lexicographically sorted arrangement of `s`: insertion of each
/// entry in turn into the sorted arrangement of the ones before it.
pub open spec fn sort_lex(s: Seq<Seq<char>>) -> Seq<Seq<char>>
    decreases s.len(),
{
    if s.len() == 0 {
        Seq::empty()
    } else {
        insert_lex(sort_lex(s.drop_last()), s.last())
    }
}

proof fn lemma_sort_push(s: Seq<Seq<char>>, x: Seq<char>)
    ensures
        sort_lex(s.push(x)) == insert_lex(sort_lex(s), x),
{
    assert(s.push(x).drop_last() =~= s);
    assert(s.push(x).last() == x);
}

proof fn lemma_insert_lex_at(t: Seq<Seq<char>>, x: Seq<char>, j: int)
    requires
        0 <= j <= t.len(),
        forall|i: int| 0 <= i < j ==> !lex_le(x, t[i]),
        j < t.len() ==> lex_le(x, t[j as int]),
    ensures
        insert_lex(t, x) == t.subrange(0, j).push(x) + t.subrange(j, t.len() as int),
    decreases t.len(),
{
    if t.len() == 0 {
        assert(insert_lex(t, x) =~= t.subrange(0, 0).push(x) + t.subrange(0, 0));
    } else if j == 0 {
        assert(lex_le(x, t[0]));
        assert(seq![x] + t =~= t.subrange(0, 0).push(x) + t.subrange(0, t.len() as int));
    } else {
        assert(!lex_le(x, t[0]));
        let t2 = t.drop_first();
        assert forall|i: int| 0 <= i < j - 1 implies !lex_le(x, t2[i]) by {
            assert(t2[i] == t[i + 1]);
        }
        if j - 1 < t2.len() {
            assert(t2[j - 1] == t[j as int]);
        }
        lemma_insert_lex_at(t2, x, j - 1);
        assert(seq![t[0]] + (t2.subrange(0, j - 1).push(x) + t2.subrange(j - 1, t2.len() as int))
            =~= t.subrange(0, j).push(x) + t.subrange(j, t.len() as int));
    }
}

/// What it means for a listing to be sorted: every entry is less than
/// or equal to every later entry.
pub open spec fn sorted_lex(t: Seq<Seq<char>>) -> bool {
    forall|i: int, j: int| 0 <= i < j < t.len() ==> lex_le(t[i], t[j])
}

proof fn lemma_insert_lex_multiset(t: Seq<Seq<char>>, x: Seq<char>)
    ensures
        insert_lex(t, x).to_multiset() == t.to_multiset().insert(x),
    decreases t.len(),
{
    broadcast use vstd::seq_lib::group_to_multiset_ensures;
    broadcast use vstd::multiset::group_multiset_axioms;

    if t.len() == 0 {
        assert(seq![x] =~= Seq::<Seq<char>>::empty().push(x));
        assert(t =~= Seq::<Seq<char>>::empty());
        assert(insert_lex(t, x).to_multiset() =~= t.to_multiset().insert(x));
    } else if lex_le(x, t[0]) {
        assert(seq![x] + t =~= t.insert(0, x));
        vstd::seq_lib::to_multiset_insert(t, 0, x);
    } else {
        let t2 = t.drop_first();
        lemma_insert_lex_multiset(t2, x);
        assert(seq![t[0]] + insert_lex(t2, x) =~= insert_lex(t2, x).insert(0, t[0]));
        vstd::seq_lib::to_multiset_insert(insert_lex(t2, x), 0, t[0]);
        assert(t =~= t2.insert(0, t[0]));
        vstd::seq_lib::to_multiset_insert(t2, 0, t[0]);
        assert(insert_lex(t, x).to_multiset() =~= t.to_multiset().insert(x));
    }
}

proof fn lemma_insert_lex_lower(t: Seq<Seq<char>>, x: Seq<char>, b: Seq<char>)
    requires
        lex_le(b, x),
        forall|i: int| 0 <= i < t.len() ==> lex_le(b, t[i]),
    ensures
        forall|j: int|
            0 <= j < insert_lex(t, x).len() ==> lex_le(b, #[trigger] insert_lex(t, x)[j]),
    decreases t.len(),
{
    if t.len() == 0 {
    } else if lex_le(x, t[0]) {
    } else {
        let t2 = t.drop_first();
        assert forall|i: int| 0 <= i < t2.len() implies lex_le(b, t2[i]) by {
            assert(t2[i] == t[i + 1]);
        }
        lemma_insert_lex_lower(t2, x, b);
        assert forall|j: int| 0 <= j < insert_lex(t, x).len() implies lex_le(
            b,
            #[trigger] insert_lex(t, x)[j],
        ) by {
            if j > 0 {
                assert(insert_lex(t, x)[j] == insert_lex(t2, x)[j - 1]);
            }
        }
    }
}

proof fn lemma_insert_lex_sorted(t: Seq<Seq<char>>, x: Seq<char>)
    requires
        sorted_lex(t),
    ensures
        sorted_lex(insert_lex(t, x)),
    decreases t.len(),
{
    if t.len() == 0 {
    } else if lex_le(x, t[0]) {
        let u = seq![x] + t;
        assert forall|i: int, j: int| 0 <= i < j < u.len() implies lex_le(u[i], u[j]) by {
            if i == 0 {
                if j > 1 {
                    lemma_lex_le_trans(x, t[0], t[j - 1]);
                }
            } else {
                assert(lex_le(t[i - 1], t[j - 1]));
            }
        }
    } else {
        let t2 = t.drop_first();
        assert forall|i: int, j: int| 0 <= i < j < t2.len() implies lex_le(t2[i], t2[j]) by {
            assert(t2[i] == t[i + 1]);
            assert(t2[j] == t[j + 1]);
        }
        lemma_insert_lex_sorted(t2, x);
        lemma_lex_le_total(x, t[0]);
        assert forall|i: int| 0 <= i < t2.len() implies lex_le(t[0], t2[i]) by {
            assert(t2[i] == t[i + 1]);
        }
        lemma_insert_lex_lower(t2, x, t[0]);
        let u = seq![t[0]] + insert_lex(t2, x);
        assert forall|i: int, j: int| 0 <= i < j < u.len() implies lex_le(u[i], u[j]) by {
            if i > 0 {
                assert(u[i] == insert_lex(t2, x)[i - 1]);
                assert(u[j] == insert_lex(t2, x)[j - 1]);
            } else {
                assert(u[j] == insert_lex(t2, x)[j - 1]);
            }
        }
    }
}

/// The sorted arrangement of a listing is sorted by the lexicographic
/// order, and holds exactly the entries of the listing: sorting neither
/// drops, adds nor changes a path, and the order it yields is total, so
/// "next" and "previous" are well defined for every listing.
pub proof fn lemma_sort_lex_correct(s: Seq<Seq<char>>)
    ensures
        sorted_lex(sort_lex(s)),
        sort_lex(s).to_multiset() == s.to_multiset(),
    decreases s.len(),
{
    broadcast use vstd::seq_lib::group_to_multiset_ensures;
    broadcast use vstd::multiset::group_multiset_axioms;

    if s.len() == 0 {
        assert(s =~= Seq::<Seq<char>>::empty());
    } else {
        let s2 = s.drop_last();
        lemma_sort_lex_correct(s2);
        lemma_insert_lex_sorted(sort_lex(s2), s.last());
        lemma_insert_lex_multiset(sort_lex(s2), s.last());
        assert(s =~= s2.push(s.last()));
        assert(sort_lex(s).to_multiset() =~= s.to_multiset());
    }
}

/// The position `x` is inserted at: just before the first entry that
/// `x` is less than or equal to.
fn insert_position(out: &Vec<String>, x: &String) -> (j: usize)
    ensures
        j <= out@.len(),
        forall|i: int| 0 <= i < j ==> !lex_le(x@, views(out@)[i]),
        j < out@.len() ==> lex_le(x@, views(out@)[j as int]),
{
    let n = out.len();
    let mut j: usize = 0;
    while j < n
        invariant
            j <= n,
            n == out@.len(),
            forall|i: int| 0 <= i < j ==> !lex_le(x@, views(out@)[i]),
        decreases n - j,
    {
        if lex_le_exec(x.as_str(), out[j].as_str()) {
            return j;
        }
        j = j + 1;
    }
    j
}

/// Sorts a listing into plain lexicographic order of the full path
/// strings — a character order, not a natural or numeric one.
pub fn sort_paths(files: &Vec<String>) -> (r: Vec<String>)
    ensures
        views(r@) == sort_lex(views(files@)),
{
    let mut out: Vec<String> = Vec::new();
    let mut k: usize = 0;
    proof {
        assert(views(files@.take(0)) =~= Seq::<Seq<char>>::empty());
        assert(views(out@) =~= Seq::<Seq<char>>::empty());
    }
    while k < files.len()
        invariant
            k <= files@.len(),
            views(out@) == sort_lex(views(files@.take(k as int))),
        decreases files@.len() - k,
    {
        let ghost prev = out@;
        let x = files[k].clone();
        let j = insert_position(&out, &x);
        out.insert(j, x);
        proof {
            lemma_insert_lex_at(views(prev), x@, j as int);
            assert(views(out@) =~= views(prev).subrange(0, j as int).push(x@) + views(
                prev,
            ).subrange(j as int, views(prev).len() as int));
            assert(views(files@.take(k as int)).push(x@) =~= views(files@.take(k as int + 1)));
            lemma_sort_push(views(files@.take(k as int)), x@);
        }
        k = k + 1;
    }
    proof {
        assert(files@.take(files@.len() as int) =~= files@);
    }
    out
}

/// The position of the first entry equal to `x`, or -1 where none is.
pub open spec fn first_index(t: Seq<Seq<char>>, x: Seq<char>) -> int
    decreases t.len(),
{
    if t.len() == 0 {
        -1
    } else if t[0] == x {
        0
    } else {
        let r = first_index(t.drop_first(), x);
        if r < 0 {
            -1
        } else {
            r + 1
        }
    }
}

proof fn lemma_first_index_found(t: Seq<Seq<char>>, x: Seq<char>, k: int)
    requires
        0 <= k < t.len(),
        forall|i: int| 0 <= i < k ==> t[i] != x,
        t[k as int] == x,
    ensures
        first_index(t, x) == k,
    decreases k,
{
    if k == 0 {
    } else {
        assert(t[0] != x);
        let t2 = t.drop_first();
        assert forall|i: int| 0 <= i < k - 1 implies t2[i] != x by {
            assert(t2[i] == t[i + 1]);
        }
        assert(t2[k - 1] == t[k as int]);
        lemma_first_index_found(t2, x, k - 1);
    }
}

proof fn lemma_first_index_absent(t: Seq<Seq<char>>, x: Seq<char>)
    requires
        forall|i: int| 0 <= i < t.len() ==> t[i] != x,
    ensures
        first_index(t, x) == -1,
    decreases t.len(),
{
    if t.len() > 0 {
        let t2 = t.drop_first();
        assert forall|i: int| 0 <= i < t2.len() implies t2[i] != x by {
            assert(t2[i] == t[i + 1]);
        }
        lemma_first_index_absent(t2, x);
    }
}

/// The neighbour of `cur` in the already-sorted listing `t`: the entry
/// after the first occurrence of `cur` when `next` is set, the entry
/// before it otherwise, and nothing at the corresponding end or when
/// `cur` does not occur at all.
pub open spec fn spec_adjacent(t: Seq<Seq<char>>, cur: Seq<char>, next: bool) -> Option<Seq<char>> {
    let i = first_index(t, cur);
    if i < 0 {
        None
    } else if next {
        if i + 1 < t.len() {
            Some(t[i + 1])
        } else {
            None
        }
    } else {
        if i > 0 {
            Some(t[i - 1])
        } else {
            None
        }
    }
}

/// The navigator's full answer over an unsorted listing: the neighbour
/// of `cur` in the lexicographically sorted arrangement of `files`.
pub open spec fn spec_resolve(files: Seq<Seq<char>>, cur: Seq<char>, next: bool) -> Option<
    Seq<char>,
> {
    spec_adjacent(sort_lex(files), cur, next)
}

/// Resolves the next (or previous) entry relative to `current` in the
/// listing `files`: the listing is sorted lexicographically, `current`
/// is located by exact equality, and the neighbouring entry comes back.
/// Nothing comes back where `current` is not listed or already stands
/// at the boundary — navigation never wraps around.
pub fn resolve_adjacent(files: &Vec<String>, current: &str, next: bool) -> (r: Option<String>)
    ensures
        match r {
            Some(p) => spec_resolve(views(files@), current@, next) == Some(p@),
            None => spec_resolve(views(files@), current@, next) is None,
        },
{
    let sorted = sort_paths(files);
    let ghost t = views(sorted@);
    let n = sorted.len();
    let mut k: usize = 0;
    while k < n
        invariant
            k <= n,
            n == sorted@.len(),
            t == views(sorted@),
            t == sort_lex(views(files@)),
            forall|i: int| 0 <= i < k ==> t[i] != current@,
        decreases n - k,
    {
        if str_eq(current, sorted[k].as_str()) {
            proof {
                lemma_first_index_found(t, current@, k as int);
            }
            if next {
                if k + 1 < n {
                    return Some(sorted[k + 1].clone());
                } else {
                    return None;
                }
            } else {
                if k > 0 {
                    return Some(sorted[k - 1].clone());
                } else {
                    return None;
                }
            }
        }
        k = k + 1;
    }
    proof {
        lemma_first_index_absent(t, current@);
    }
    None
}

} // verus!
