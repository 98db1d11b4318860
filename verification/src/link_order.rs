//! The order in which the digest visits the links: ascending by source peer, then
//! by destination peer.
use vstd::prelude::*;

verus! {

/// A directed link between two peers, as `(source, destination)`.
pub type SrcDstPeerPair = (u32, u32);

/// `a` comes before `b`: smaller source, or the same source and a smaller destination.
pub open spec fn pair_lt(a: SrcDstPeerPair, b: SrcDstPeerPair) -> bool {
    a.0 < b.0 || (a.0 == b.0 && a.1 < b.1)
}

/// Every link comes strictly before every later one.
pub open spec fn strictly_sorted(s: Seq<SrcDstPeerPair>) -> bool {
    forall|i: int, j: int| 0 <= i < j < s.len() ==> pair_lt(#[trigger] s[i], #[trigger] s[j])
}

/// The links of `keys` in ascending order (for a finite set there is exactly one
/// such sequence: see `law_sorted_links_unique`).
pub open spec fn sorted_links(keys: Set<SrcDstPeerPair>) -> Seq<SrcDstPeerPair> {
    choose|s: Seq<SrcDstPeerPair>| strictly_sorted(s) && s.to_set() == keys
}

pub fn pair_less(a: SrcDstPeerPair, b: SrcDstPeerPair) -> (r: bool)
    ensures
        r == pair_lt(a, b),
{
    a.0 < b.0 || (a.0 == b.0 && a.1 < b.1)
}

/// The link order is the lexicographic order of `(source, destination)` as
/// unsigned 32-bit numbers: a smaller source comes first whatever the destinations,
/// and of two links from one source the one with the smaller destination.
pub proof fn law_link_order_lexicographic(a: SrcDstPeerPair, b: SrcDstPeerPair)
    ensures
        a.0 < b.0 ==> pair_lt(a, b),
        a.0 > b.0 ==> !pair_lt(a, b),
        a.0 == b.0 ==> (pair_lt(a, b) <==> a.1 < b.1),
        !pair_lt(a, a),
        pair_lt(a, b) ==> !pair_lt(b, a),
{
}

/// The result of sorting lists the links ascending as unsigned numbers: a link
/// with a smaller source, or the same source and a smaller destination, comes
/// first.
pub proof fn law_sorted_links_ascending(keys: Set<SrcDstPeerPair>, s: Seq<SrcDstPeerPair>, i: int, j: int)
    requires
        strictly_sorted(s),
        s.to_set() == keys,
        0 <= i < j < s.len(),
    ensures
        sorted_links(keys)[i].0 < sorted_links(keys)[j].0 || (sorted_links(keys)[i].0
            == sorted_links(keys)[j].0 && sorted_links(keys)[i].1 < sorted_links(keys)[j].1),
{
    law_sorted_links_unique(keys, s);
    assert(pair_lt(s[i], s[j]));
}

/// Two ascending sequences with the same links are the same sequence.
pub proof fn law_sorted_sequences_equal(a: Seq<SrcDstPeerPair>, b: Seq<SrcDstPeerPair>)
    requires
        strictly_sorted(a),
        strictly_sorted(b),
        a.to_set() == b.to_set(),
    ensures
        a == b,
    decreases a.len(),
{
    if a.len() == 0 {
        if b.len() > 0 {
            assert(b.to_set().contains(b[0]));
        }
        assert(a =~= b);
    } else if b.len() == 0 {
        assert(a.to_set().contains(a[0]));
    } else {
        assert(a.to_set().contains(a[0]));
        assert(b.to_set().contains(b[0]));
        let k = choose|k: int| 0 <= k < b.len() && b[k] == a[0];
        let m = choose|m: int| 0 <= m < a.len() && a[m] == b[0];
        if k > 0 {
            assert(pair_lt(b[0], b[k]));
            if m > 0 {
                assert(pair_lt(a[0], a[m]));
            }
        }
        assert(a[0] == b[0]);
        let a2 = a.drop_first();
        let b2 = b.drop_first();
        assert forall|x: SrcDstPeerPair| a2.to_set().contains(x) implies b2.to_set().contains(x) by {
            let i = choose|i: int| 0 <= i < a2.len() && a2[i] == x;
            assert(pair_lt(a[0], a[i + 1]));
            assert(a.to_set().contains(x));
            let j = choose|j: int| 0 <= j < b.len() && b[j] == x;
            assert(j != 0);
            assert(b2[j - 1] == x);
        }
        assert forall|x: SrcDstPeerPair| b2.to_set().contains(x) implies a2.to_set().contains(x) by {
            let i = choose|i: int| 0 <= i < b2.len() && b2[i] == x;
            assert(pair_lt(b[0], b[i + 1]));
            assert(b.to_set().contains(x));
            let j = choose|j: int| 0 <= j < a.len() && a[j] == x;
            assert(j != 0);
            assert(a2[j - 1] == x);
        }
        assert(a2.to_set() =~= b2.to_set());
        law_sorted_sequences_equal(a2, b2);
        assert(a =~= b) by {
            assert forall|i: int| 0 <= i < a.len() implies a[i] == b[i] by {
                if i > 0 {
                    assert(a[i] == a2[i - 1]);
                    assert(b[i] == b2[i - 1]);
                }
            }
        }
    }
}

/// Any ascending sequence of the links of `keys` is `sorted_links(keys)`: the order
/// in which the digest visits the links depends on the set of links alone, not on
/// the order in which the store handed them out.
pub proof fn law_sorted_links_unique(keys: Set<SrcDstPeerPair>, s: Seq<SrcDstPeerPair>)
    requires
        strictly_sorted(s),
        s.to_set() == keys,
    ensures
        sorted_links(keys) == s,
        strictly_sorted(sorted_links(keys)),
        sorted_links(keys).to_set() == keys,
{
    let t = sorted_links(keys);
    assert(strictly_sorted(t) && t.to_set() == keys);
    law_sorted_sequences_equal(t, s);
}

/// The position at which `x` goes into the ascending sequence `r`: every link
/// before it is smaller than `x`, every link from it on is larger.
fn insertion_point(r: &Vec<SrcDstPeerPair>, x: SrcDstPeerPair) -> (j: usize)
    requires
        strictly_sorted(r@),
        !r@.contains(x),
    ensures
        j <= r.len(),
        forall|k: int| 0 <= k < j ==> pair_lt(#[trigger] r@[k], x),
        forall|k: int| j <= k < r.len() ==> pair_lt(x, #[trigger] r@[k]),
{
    let mut j: usize = 0;
    while j < r.len() && !pair_less(x, r[j])
        invariant
            j <= r.len(),
            strictly_sorted(r@),
            !r@.contains(x),
            forall|k: int| 0 <= k < j ==> pair_lt(#[trigger] r@[k], x),
        decreases r.len() - j,
    {
        assert(r@[j as int] != x);
        j = j + 1;
    }
    assert forall|k: int| j <= k < r.len() implies pair_lt(x, #[trigger] r@[k]) by {
        if k > j {
            assert(pair_lt(r@[j as int], r@[k]));
        }
    }
    j
}

/// The links of `keys` in ascending order.
pub fn sort_links(keys: &Vec<SrcDstPeerPair>) -> (r: Vec<SrcDstPeerPair>)
    requires
        keys@.no_duplicates(),
    ensures
        strictly_sorted(r@),
        r@.to_set() == keys@.to_set(),
        r@ == sorted_links(keys@.to_set()),
{
    let mut r: Vec<SrcDstPeerPair> = Vec::new();
    let mut i: usize = 0;
    while i < keys.len()
        invariant
            i <= keys.len(),
            keys@.no_duplicates(),
            strictly_sorted(r@),
            r@.to_set() == keys@.take(i as int).to_set(),
        decreases keys.len() - i,
    {
        let x = keys[i];
        assert(!r@.contains(x)) by {
            if r@.contains(x) {
                assert(r@.to_set().contains(x));
                let t0 = keys@.take(i as int);
                let k = choose|k: int| 0 <= k < t0.len() && t0[k] == x;
                assert(keys@[k] == keys@[i as int]);
            }
        }
        let j = insertion_point(&r, x);
        let ghost old_r = r@;
        r.insert(j, x);
        assert(r@ == old_r.insert(j as int, x));
        assert forall|a: int, b: int| 0 <= a < b < r@.len() implies pair_lt(
            #[trigger] r@[a],
            #[trigger] r@[b],
        ) by {
            if b < j {
                assert(r@[a] == old_r[a] && r@[b] == old_r[b]);
            } else if b == j {
                assert(r@[a] == old_r[a]);
            } else if a == j {
                assert(r@[b] == old_r[b - 1]);
            } else if a < j {
                assert(r@[a] == old_r[a] && r@[b] == old_r[b - 1]);
                assert(pair_lt(old_r[a], x));
                assert(pair_lt(x, old_r[b - 1]));
            } else {
                assert(r@[a] == old_r[a - 1] && r@[b] == old_r[b - 1]);
            }
        }
        assert forall|y: SrcDstPeerPair| r@.to_set().contains(y) <==> keys@.take(
            i + 1,
        ).to_set().contains(y) by {
            if r@.to_set().contains(y) {
                let k = choose|k: int| 0 <= k < r@.len() && r@[k] == y;
                if k < j {
                    assert(old_r.to_set().contains(y));
                } else if k > j {
                    assert(old_r[k - 1] == y);
                    assert(old_r.to_set().contains(y));
                } else {
                    assert(keys@.take(i + 1)[i as int] == y);
                }
                if y != x {
                    assert(keys@.take(i as int).to_set().contains(y));
                    let t0 = keys@.take(i as int);
                    let m = choose|m: int| 0 <= m < t0.len() && t0[m] == y;
                    assert(keys@.take(i + 1)[m] == y);
                }
            }
            if keys@.take(i + 1).to_set().contains(y) {
                let t1 = keys@.take(i + 1);
                let m = choose|m: int| 0 <= m < t1.len() && t1[m] == y;
                if m < i {
                    assert(keys@.take(i as int)[m] == y);
                    assert(old_r.to_set().contains(y));
                    let k = choose|k: int| 0 <= k < old_r.len() && old_r[k] == y;
                    if k < j {
                        assert(r@[k] == y);
                    } else {
                        assert(r@[k + 1] == y);
                    }
                } else {
                    assert(r@[j as int] == y);
                }
            }
        }
        assert(r@.to_set() =~= keys@.take(i + 1).to_set());
        i = i + 1;
    }
    assert(keys@.take(i as int) =~= keys@);
    proof {
        law_sorted_links_unique(keys@.to_set(), r@);
    }
    r
}

} // verus!
