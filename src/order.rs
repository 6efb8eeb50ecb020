use vstd::prelude::*;
use vstd::utf8::*;
use core::cmp::Ordering;

verus! {

/// Strict lexicographic order on byte strings. This is the order of SQLite's
/// binary collation, and on UTF-8 text it is the order of code points.
pub open spec fn bytes_less(a: Seq<u8>, b: Seq<u8>) -> bool
    decreases a.len(),
{
    if a.len() == 0 {
        b.len() > 0
    } else if b.len() == 0 {
        false
    } else if a[0] != b[0] {
        a[0] < b[0]
    } else {
        bytes_less(a.drop_first(), b.drop_first())
    }
}

/// The bytes by which a SKU is compared and made unique: its UTF-8 encoding.
pub open spec fn sku_key(sku: Seq<char>) -> Seq<u8> {
    encode_utf8(sku)
}

pub proof fn lemma_bytes_less_irreflexive(a: Seq<u8>)
    ensures
        !bytes_less(a, a),
    decreases a.len(),
{
    if a.len() > 0 {
        lemma_bytes_less_irreflexive(a.drop_first());
    }
}

pub proof fn lemma_bytes_less_asymmetric(a: Seq<u8>, b: Seq<u8>)
    requires
        bytes_less(a, b),
    ensures
        !bytes_less(b, a),
    decreases a.len(),
{
    if a.len() > 0 && b.len() > 0 && a[0] == b[0] {
        lemma_bytes_less_asymmetric(a.drop_first(), b.drop_first());
    }
}

pub proof fn lemma_bytes_less_transitive(a: Seq<u8>, b: Seq<u8>, c: Seq<u8>)
    requires
        bytes_less(a, b),
        bytes_less(b, c),
    ensures
        bytes_less(a, c),
    decreases a.len(),
{
    if a.len() > 0 && b.len() > 0 && c.len() > 0 && a[0] == b[0] && b[0] == c[0] {
        lemma_bytes_less_transitive(a.drop_first(), b.drop_first(), c.drop_first());
    }
}

pub proof fn lemma_bytes_less_total(a: Seq<u8>, b: Seq<u8>)
    requires
        a != b,
    ensures
        bytes_less(a, b) || bytes_less(b, a),
    decreases a.len(),
{
    if a.len() > 0 && b.len() > 0 && a[0] == b[0] {
        if a.drop_first() =~= b.drop_first() {
            assert(a =~= seq![a[0]] + a.drop_first());
            assert(b =~= seq![b[0]] + b.drop_first());
        }
        lemma_bytes_less_total(a.drop_first(), b.drop_first());
    } else if a.len() == 0 && b.len() == 0 {
        assert(a =~= b);
    }
}

/// Two SKUs with the same bytes are the same SKU.
pub proof fn lemma_sku_key_injective(a: Seq<char>, b: Seq<char>)
    requires
        sku_key(a) == sku_key(b),
    ensures
        a == b,
{
    encode_utf8_decode_utf8(a);
    encode_utf8_decode_utf8(b);
}

proof fn lemma_bytes_less_skip(a: Seq<u8>, b: Seq<u8>, i: int)
    requires
        0 <= i < a.len(),
        i < b.len(),
        a[i] == b[i],
    ensures
        bytes_less(a.skip(i), b.skip(i)) == bytes_less(a.skip(i + 1), b.skip(i + 1)),
{
    assert(a.skip(i).drop_first() =~= a.skip(i + 1));
    assert(b.skip(i).drop_first() =~= b.skip(i + 1));
}

/// Compares two byte strings in the order of `bytes_less`.
pub fn compare_bytes(a: &[u8], b: &[u8]) -> (r: Ordering)
    ensures
        (r == Ordering::Less) == bytes_less(a@, b@),
        (r == Ordering::Equal) == (a@ == b@),
        (r == Ordering::Greater) == bytes_less(b@, a@),
{
    let mut i: usize = 0;
    assert(a@.skip(0) =~= a@);
    assert(b@.skip(0) =~= b@);
    while i < a.len() && i < b.len() && a[i] == b[i]
        invariant
            i <= a@.len(),
            i <= b@.len(),
            a@.subrange(0, i as int) == b@.subrange(0, i as int),
            bytes_less(a@, b@) == bytes_less(a@.skip(i as int), b@.skip(i as int)),
            bytes_less(b@, a@) == bytes_less(b@.skip(i as int), a@.skip(i as int)),
        decreases a@.len() - i,
    {
        proof {
            lemma_bytes_less_skip(a@, b@, i as int);
            lemma_bytes_less_skip(b@, a@, i as int);
            assert(a@.subrange(0, i + 1) =~= a@.subrange(0, i as int).push(a@[i as int]));
            assert(b@.subrange(0, i + 1) =~= b@.subrange(0, i as int).push(b@[i as int]));
        }
        i = i + 1;
    }
    proof {
        lemma_bytes_less_irreflexive(a@);
        if a@ != b@ {
            lemma_bytes_less_total(a@, b@);
        }
        if bytes_less(a@, b@) {
            lemma_bytes_less_asymmetric(a@, b@);
        }
    }
    if i < a.len() && i < b.len() {
        if a[i] < b[i] {
            Ordering::Less
        } else {
            Ordering::Greater
        }
    } else if i < b.len() {
        assert(a@ =~= a@.subrange(0, i as int));
        Ordering::Less
    } else if i < a.len() {
        assert(b@ =~= b@.subrange(0, i as int));
        Ordering::Greater
    } else {
        assert(a@ =~= a@.subrange(0, i as int));
        assert(b@ =~= b@.subrange(0, i as int));
        Ordering::Equal
    }
}

} // verus!
