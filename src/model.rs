//! The mathematical model: byte order, staged writes and range pages.
use vstd::prelude::*;

verus! {

/// Strict byte-lexicographic order, as slices of `u8` compare.
pub open spec fn bytes_lt(a: Seq<u8>, b: Seq<u8>) -> bool
    decreases a.len(),
{
    if b.len() == 0 {
        false
    } else if a.len() == 0 {
        true
    } else if a[0] != b[0] {
        a[0] < b[0]
    } else {
        bytes_lt(a.drop_first(), b.drop_first())
    }
}

/// `k` lies in the half-open interval `[lo, hi)`.
pub open spec fn in_bounds(k: Seq<u8>, lo: Seq<u8>, hi: Seq<u8>) -> bool {
    !bytes_lt(k, lo) && bytes_lt(k, hi)
}

/// The contents after applying staged writes `w` to contents `m`: a staged
/// `Some(v)` sets the key to `v`, a staged `None` removes it, and keys that
/// were not staged keep their value.
pub open spec fn apply_writes(
    m: Map<Seq<u8>, Seq<u8>>,
    w: Map<Seq<u8>, Option<Seq<u8>>>,
) -> Map<Seq<u8>, Seq<u8>> {
    Map::new(
        |k: Seq<u8>|
            if w.contains_key(k) {
                w[k] is Some
            } else {
                m.contains_key(k)
            },
        |k: Seq<u8>|
            if w.contains_key(k) {
                w[k]->Some_0
            } else {
                m[k]
            },
    )
}

/// Staged writes of a batch that stages nothing.
pub open spec fn no_writes() -> Map<Seq<u8>, Option<Seq<u8>>> {
    Map::empty()
}

/// The contents after inserting each pair of `ops` in turn.
pub open spec fn insert_all(m: Map<Seq<u8>, Seq<u8>>, ops: Seq<(Seq<u8>, Seq<u8>)>) -> Map<
    Seq<u8>,
    Seq<u8>,
>
    decreases ops.len(),
{
    if ops.len() == 0 {
        m
    } else {
        insert_all(m, ops.drop_last()).insert(ops.last().0, ops.last().1)
    }
}

/// The value of the last pair of `ops` whose key is `k`, if any.
pub open spec fn last_value(ops: Seq<(Seq<u8>, Seq<u8>)>, k: Seq<u8>) -> Option<Seq<u8>>
    decreases ops.len(),
{
    if ops.len() == 0 {
        None
    } else if ops.last().0 == k {
        Some(ops.last().1)
    } else {
        last_value(ops.drop_last(), k)
    }
}

/// `s` is the first page of at most `limit` entries of `m` within
/// `[lo, hi)`, in strictly ascending key order. When fewer than `limit`
/// entries are returned, every key of the interval is among them; otherwise
/// every key of the interval that is left out sorts after the last one.
pub open spec fn is_range_page(
    m: Map<Seq<u8>, Seq<u8>>,
    lo: Seq<u8>,
    hi: Seq<u8>,
    limit: nat,
    s: Seq<(Seq<u8>, Seq<u8>)>,
) -> bool {
    &&& s.len() <= limit
    &&& forall|i: int|
        0 <= i < s.len() ==> {
            &&& in_bounds(#[trigger] s[i].0, lo, hi)
            &&& m.contains_key(s[i].0)
            &&& m[s[i].0] == s[i].1
        }
    &&& forall|i: int, j: int| 0 <= i < j < s.len() ==> bytes_lt(#[trigger] s[i].0, #[trigger] s[j].0)
    &&& forall|k: Seq<u8>|
        #![trigger m.contains_key(k)]
        m.contains_key(k) && in_bounds(k, lo, hi) ==> {
            ||| exists|i: int| 0 <= i < s.len() && s[i].0 == k
            ||| (s.len() == limit && limit > 0 && bytes_lt(s.last().0, k))
        }
}

/// `s` lists every entry of `m` within `[lo, hi)`, in strictly ascending
/// key order.
pub open spec fn is_listing(
    m: Map<Seq<u8>, Seq<u8>>,
    lo: Seq<u8>,
    hi: Seq<u8>,
    s: Seq<(Seq<u8>, Seq<u8>)>,
) -> bool {
    &&& forall|i: int|
        0 <= i < s.len() ==> {
            &&& in_bounds(#[trigger] s[i].0, lo, hi)
            &&& m.contains_key(s[i].0)
            &&& m[s[i].0] == s[i].1
        }
    &&& forall|i: int, j: int| 0 <= i < j < s.len() ==> bytes_lt(#[trigger] s[i].0, #[trigger] s[j].0)
    &&& forall|k: Seq<u8>|
        #![trigger m.contains_key(k)]
        m.contains_key(k) && in_bounds(k, lo, hi) ==> exists|i: int| 0 <= i < s.len() && s[i].0 == k
}

/// The first `n` entries of a full listing form a page of at most `limit`
/// entries, where `n` is `limit` or the whole listing.
pub proof fn lemma_listing_prefix_is_page(
    m: Map<Seq<u8>, Seq<u8>>,
    lo: Seq<u8>,
    hi: Seq<u8>,
    limit: nat,
    s: Seq<(Seq<u8>, Seq<u8>)>,
    n: nat,
)
    requires
        is_listing(m, lo, hi, s),
        limit > 0,
        n <= limit,
        n <= s.len(),
        n == limit || n == s.len(),
    ensures
        is_range_page(m, lo, hi, limit, s.take(n as int)),
{
    let t = s.take(n as int);
    assert forall|i: int, j: int| 0 <= i < j < t.len() implies bytes_lt(
        #[trigger] t[i].0,
        #[trigger] t[j].0,
    ) by {
        assert(t[i] == s[i] && t[j] == s[j]);
    }
    assert forall|k: Seq<u8>| #[trigger]
        m.contains_key(k) && in_bounds(k, lo, hi) implies {
        ||| exists|i: int| 0 <= i < t.len() && t[i].0 == k
        ||| (t.len() == limit && limit > 0 && bytes_lt(t.last().0, k))
    } by {
        let i = choose|i: int| 0 <= i < s.len() && s[i].0 == k;
        if i < n {
            assert(t[i].0 == k);
        } else {
            assert(n > 0);
            assert(t.last() == s[n as int - 1]);
            assert(bytes_lt(s[n as int - 1].0, s[i].0));
        }
    }
}

/// No key of `m` lies in `[lo, hi)`.
pub open spec fn range_is_empty(m: Map<Seq<u8>, Seq<u8>>, lo: Seq<u8>, hi: Seq<u8>) -> bool {
    forall|k: Seq<u8>| #[trigger] m.contains_key(k) ==> !in_bounds(k, lo, hi)
}

/// The UTF-8 encoding of each side of each text pair.
pub open spec fn encode_pairs(s: Seq<(String, String)>) -> Seq<(Seq<u8>, Seq<u8>)> {
    s.map_values(|p: (String, String)| (vstd::utf8::encode_utf8(p.0@), vstd::utf8::encode_utf8(p.1@)))
}

} // verus!
