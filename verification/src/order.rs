//! The order of hashes: byte by byte, the first difference decides, and a
//! string that ends first comes first.

use crate::hash::DnaHash;
use vstd::prelude::*;
use vstd::relations::{sorted_by, total_ordering};
use vstd::seq_lib::{lemma_sorted_unique, to_multiset_insert};

verus! {

/// Whether `a` comes before `b` or is `b`.
pub open spec fn spec_bytes_leq(a: Seq<u8>, b: Seq<u8>) -> bool
    decreases a.len(),
{
    if a.len() == 0 {
        true
    } else if b.len() == 0 {
        false
    } else if a[0] != b[0] {
        a[0] < b[0]
    } else {
        spec_bytes_leq(a.drop_first(), b.drop_first())
    }
}

/// The order of byte strings as a relation.
pub open spec fn spec_leq() -> spec_fn(Seq<u8>, Seq<u8>) -> bool {
    |a: Seq<u8>, b: Seq<u8>| spec_bytes_leq(a, b)
}

/// The hashes in ascending order.
pub open spec fn spec_sorted(hashes: Seq<Seq<u8>>) -> Seq<Seq<u8>> {
    hashes.sort_by(spec_leq())
}

/// Every byte string comes before or is itself.
pub proof fn lemma_leq_reflexive(a: Seq<u8>)
    ensures
        spec_bytes_leq(a, a),
    decreases a.len(),
{
    if a.len() > 0 {
        lemma_leq_reflexive(a.drop_first());
    }
}

/// Two byte strings of which each comes before or is the other are one.
pub proof fn lemma_leq_antisymmetric(a: Seq<u8>, b: Seq<u8>)
    requires
        spec_bytes_leq(a, b),
        spec_bytes_leq(b, a),
    ensures
        a == b,
    decreases a.len(),
{
    if a.len() == 0 {
        assert(a =~= b);
    } else {
        lemma_leq_antisymmetric(a.drop_first(), b.drop_first());
        assert(a =~= seq![a[0]] + a.drop_first());
        assert(b =~= seq![b[0]] + b.drop_first());
    }
}

/// What comes before something that comes before a third comes before the
/// third.
pub proof fn lemma_leq_transitive(a: Seq<u8>, b: Seq<u8>, c: Seq<u8>)
    requires
        spec_bytes_leq(a, b),
        spec_bytes_leq(b, c),
    ensures
        spec_bytes_leq(a, c),
    decreases a.len(),
{
    if a.len() > 0 && a[0] == b[0] && b[0] == c[0] {
        lemma_leq_transitive(a.drop_first(), b.drop_first(), c.drop_first());
    }
}

/// Of two byte strings, one comes before or is the other.
pub proof fn lemma_leq_connected(a: Seq<u8>, b: Seq<u8>)
    ensures
        spec_bytes_leq(a, b) || spec_bytes_leq(b, a),
    decreases a.len(),
{
    if a.len() > 0 && b.len() > 0 && a[0] == b[0] {
        lemma_leq_connected(a.drop_first(), b.drop_first());
    }
}

/// The order of byte strings is a total order.
pub proof fn lemma_leq_total_ordering()
    ensures
        total_ordering(spec_leq()),
{
    let leq = spec_leq();
    assert forall|x: Seq<u8>| #[trigger] leq(x, x) by {
        lemma_leq_reflexive(x);
    }
    assert forall|x: Seq<u8>, y: Seq<u8>| #[trigger] leq(x, y) && #[trigger] leq(y, x) implies x
        == y by {
        lemma_leq_antisymmetric(x, y);
    }
    assert forall|x: Seq<u8>, y: Seq<u8>, z: Seq<u8>| #[trigger]
        leq(x, y) && #[trigger] leq(y, z) implies leq(x, z) by {
        lemma_leq_transitive(x, y, z);
    }
    assert forall|x: Seq<u8>, y: Seq<u8>| #[trigger] leq(x, y) || #[trigger] leq(y, x) by {
        lemma_leq_connected(x, y);
    }
}

/// The ascending order of hashes is the one order of them that ascends.
pub proof fn lemma_sorted_is(hashes: Seq<Seq<u8>>, sorted: Seq<Seq<u8>>)
    requires
        sorted_by(sorted, spec_leq()),
        sorted.to_multiset() == hashes.to_multiset(),
    ensures
        sorted == spec_sorted(hashes),
{
    lemma_leq_total_ordering();
    hashes.lemma_sort_by_ensures(spec_leq());
    lemma_sorted_unique(sorted, spec_sorted(hashes), spec_leq());
}

/// A byte string that is put where all before it come before it, and the
/// next one does not, keeps an ascending sequence ascending.
pub proof fn lemma_insert_sorted(s: Seq<Seq<u8>>, at: int, x: Seq<u8>)
    requires
        sorted_by(s, spec_leq()),
        0 <= at <= s.len(),
        forall|j: int| 0 <= j < at ==> spec_bytes_leq(#[trigger] s[j], x),
        at < s.len() ==> !spec_bytes_leq(s[at], x),
    ensures
        sorted_by(s.insert(at, x), spec_leq()),
{
    let leq = spec_leq();
    let t = s.insert(at, x);
    assert forall|i: int, j: int| 0 <= i < j < t.len() implies #[trigger] leq(t[i], t[j]) by {
        if j == at {
            assert(t[i] == s[i]);
        } else if i == at {
            assert(t[j] == s[j - 1]);
            lemma_leq_connected(s[at], x);
            if j - 1 > at {
                assert(leq(s[at], s[j - 1]));
                lemma_leq_transitive(x, s[at], s[j - 1]);
            }
        } else {
            let si = if i < at { i } else { i - 1 };
            let sj = if j < at { j } else { j - 1 };
            assert(t[i] == s[si]);
            assert(t[j] == s[sj]);
            assert(leq(s[si], s[sj]));
        }
    }
}

/// Whether `a` comes before `b` or is `b`.
pub fn bytes_leq(a: &Vec<u8>, b: &Vec<u8>) -> (yes: bool)
    ensures
        yes == spec_bytes_leq(a@, b@),
{
    let mut i: usize = 0;
    proof {
        assert(a@.skip(0) =~= a@);
        assert(b@.skip(0) =~= b@);
    }
    while i < a.len() && i < b.len()
        invariant
            i <= a.len(),
            i <= b.len(),
            spec_bytes_leq(a@, b@) == spec_bytes_leq(a@.skip(i as int), b@.skip(i as int)),
        decreases a.len() - i,
    {
        proof {
            assert(a@.skip(i as int)[0] == a@[i as int]);
            assert(b@.skip(i as int)[0] == b@[i as int]);
            assert(a@.skip(i as int).drop_first() =~= a@.skip(i + 1));
            assert(b@.skip(i as int).drop_first() =~= b@.skip(i + 1));
        }
        if a[i] != b[i] {
            return a[i] < b[i];
        }
        i = i + 1;
    }
    i == a.len()
}

/// Copies hashes into ascending order.
pub fn sorted_hashes(hashes: &Vec<DnaHash>) -> (sorted: Vec<DnaHash>)
    ensures
        sorted.deep_view() == spec_sorted(hashes.deep_view()),
        sorted.len() == hashes.len(),
{
    let ghost all = hashes.deep_view();
    let mut sorted: Vec<DnaHash> = Vec::new();
    let mut i: usize = 0;
    proof {
        assert(all.subrange(0, 0) =~= Seq::<Seq<u8>>::empty());
        assert(sorted.deep_view() =~= Seq::<Seq<u8>>::empty());
    }
    while i < hashes.len()
        invariant
            i <= hashes.len(),
            all == hashes.deep_view(),
            sorted.len() == i,
            sorted_by(sorted.deep_view(), spec_leq()),
            sorted.deep_view().to_multiset() == all.subrange(0, i as int).to_multiset(),
        decreases hashes.len() - i,
    {
        let hash = hashes[i].clone();
        let ghost before = sorted.deep_view();
        let mut at: usize = 0;
        let mut searching = true;
        while searching && at < sorted.len()
            invariant
                at <= sorted.len(),
                before == sorted.deep_view(),
                forall|j: int| 0 <= j < at ==> spec_bytes_leq(#[trigger] before[j], hash@),
                !searching ==> at < sorted.len() && !spec_bytes_leq(before[at as int], hash@),
            decreases sorted.len() - at + (if searching { 1int } else { 0int }),
        {
            assert(before[at as int] == sorted@[at as int]@);
            if bytes_leq(sorted[at].get_raw_39(), hash.get_raw_39()) {
                at = at + 1;
            } else {
                searching = false;
            }
        }
        sorted.insert(at, hash);
        proof {
            assert(sorted.deep_view() =~= before.insert(at as int, hash@));
            lemma_insert_sorted(before, at as int, hash@);
            to_multiset_insert(before, at as int, hash@);
            assert(all.subrange(0, i + 1) =~= all.subrange(0, i as int).push(hash@));
            all.subrange(0, i as int).to_multiset_ensures();
        }
        i = i + 1;
    }
    proof {
        assert(all.subrange(0, i as int) =~= all);
        lemma_sorted_is(all, sorted.deep_view());
    }
    sorted
}

} // verus!
