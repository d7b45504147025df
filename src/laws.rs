//! Laws that relate the operations of a store and of a batch, stated over
//! their models.
use vstd::prelude::*;
use vstd::utf8::{decode_utf8, encode_utf8, valid_utf8};
use crate::model::{apply_writes, bytes_lt, insert_all, last_value, no_writes};

verus! {

/// After inserting the pairs of `ops` in turn, a key maps to the value of the
/// last pair that names it; a key that no pair names keeps what it had.
pub proof fn lemma_last_insert_wins(
    m: Map<Seq<u8>, Seq<u8>>,
    ops: Seq<(Seq<u8>, Seq<u8>)>,
    k: Seq<u8>,
)
    ensures
        last_value(ops, k) is Some ==> insert_all(m, ops).contains_key(k) && insert_all(m, ops)[k]
            == last_value(ops, k)->Some_0,
        last_value(ops, k) is None ==> insert_all(m, ops).contains_key(k) == m.contains_key(k) && (
        m.contains_key(k) ==> insert_all(m, ops)[k] == m[k]),
    decreases ops.len(),
{
    if ops.len() > 0 {
        lemma_last_insert_wins(m, ops.drop_last(), k);
    }
}

/// Reading a key right after writing text under it gives back exactly that
/// text, byte for byte, and the key is present even where the text is empty,
/// so it is told apart from a key that was never written.
pub proof fn lemma_insert_then_get(m: Map<Seq<u8>, Seq<u8>>, k: Seq<char>, v: Seq<char>)
    ensures
        m.insert(encode_utf8(k), encode_utf8(v)).contains_key(encode_utf8(k)),
        m.insert(encode_utf8(k), encode_utf8(v))[encode_utf8(k)] == encode_utf8(v),
        valid_utf8(encode_utf8(v)),
        decode_utf8(encode_utf8(v)) == v,
{
    vstd::utf8::encode_utf8_valid_utf8(v);
    vstd::utf8::encode_utf8_decode_utf8(v);
}

/// A batch that puts `a`, puts `b` and then deletes `a` leaves `a` absent and
/// `b` set once applied, and every other key as it was.
pub proof fn lemma_put_put_delete(
    m: Map<Seq<u8>, Seq<u8>>,
    a: Seq<u8>,
    b: Seq<u8>,
    va: Seq<u8>,
    vb: Seq<u8>,
)
    requires
        a != b,
    ensures
        !apply_writes(m, no_writes().insert(a, Some(va)).insert(b, Some(vb)).insert(a, None)).contains_key(a),
        apply_writes(m, no_writes().insert(a, Some(va)).insert(b, Some(vb)).insert(a, None)).contains_key(b),
        apply_writes(m, no_writes().insert(a, Some(va)).insert(b, Some(vb)).insert(a, None))[b] == vb,
        forall|k: Seq<u8>|
            k != a && k != b ==> (#[trigger] apply_writes(
                m,
                no_writes().insert(a, Some(va)).insert(b, Some(vb)).insert(a, None),
            ).contains_key(k) == m.contains_key(k) && (m.contains_key(k) ==> apply_writes(
                m,
                no_writes().insert(a, Some(va)).insert(b, Some(vb)).insert(a, None),
            )[k] == m[k])),
{
}

/// Of two puts staged on one key in one batch, the later one is what
/// applying the batch leaves: the earlier one has no effect.
pub proof fn lemma_last_staged_wins(
    m: Map<Seq<u8>, Seq<u8>>,
    w: Map<Seq<u8>, Option<Seq<u8>>>,
    k: Seq<u8>,
    v1: Seq<u8>,
    v2: Seq<u8>,
)
    ensures
        apply_writes(m, w.insert(k, Some(v1)).insert(k, Some(v2))) == apply_writes(
            m,
            w.insert(k, Some(v2)),
        ),
        apply_writes(m, w.insert(k, Some(v1)).insert(k, Some(v2))).contains_key(k),
        apply_writes(m, w.insert(k, Some(v1)).insert(k, Some(v2)))[k] == v2,
{
    assert(w.insert(k, Some(v1)).insert(k, Some(v2)) =~= w.insert(k, Some(v2)));
}

/// The keys that sort after `last` are exactly those that do not sort before
/// `last` followed by a zero byte. A scan that resumes from that bound, taken
/// as an inclusive lower bound, neither reads `last` again nor skips a key.
pub proof fn lemma_resume_bound(last: Seq<u8>, k: Seq<u8>)
    ensures
        bytes_lt(last, k) <==> !bytes_lt(k, last.push(0)),
    decreases last.len(),
{
    let next = last.push(0);
    assert(next.len() > 0);
    if k.len() == 0 {
        assert(!bytes_lt(last, k));
        assert(bytes_lt(k, next));
    }
    if last.len() == 0 {
        assert(next[0] == 0);
        if k.len() > 0 {
            assert(bytes_lt(last, k));
            if k[0] == 0 {
                assert(next.drop_first().len() == 0);
                assert(!bytes_lt(k.drop_first(), next.drop_first()));
            }
            assert(!bytes_lt(k, next));
        }
    } else {
        assert(next[0] == last[0]);
        if k.len() > 0 && last[0] != k[0] {
            assert(bytes_lt(last, k) == (last[0] < k[0]));
            assert(bytes_lt(k, next) == (k[0] < last[0]));
        }
        if k.len() > 0 && last[0] == k[0] {
            lemma_resume_bound(last.drop_first(), k.drop_first());
            assert(next.drop_first() =~= last.drop_first().push(0));
        }
    }
}

} // verus!
