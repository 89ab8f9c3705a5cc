//! Keys of the persisted log: an entry's index as eight bytes, most significant
//! first, so that the byte order of keys is the numeric order of indices.

use vstd::prelude::*;

verus! {

/// Byte `k` (0 = most significant) of `i`.
pub open spec fn key_byte(i: u64, k: int) -> u8 {
    ((i >> (((7 - k) * 8) as u64)) & 0xff) as u8
}

/// The key of index `i`.
pub open spec fn key_of(i: u64) -> Seq<u8> {
    Seq::new(8, |k: int| key_byte(i, k))
}

/// The key under which the log entry with index `index` is stored.
pub fn log_key(index: u64) -> (r: Vec<u8>)
    ensures
        r@ == key_of(index),
{
    let r = vec![
        ((index >> 56u64) & 0xff) as u8,
        ((index >> 48u64) & 0xff) as u8,
        ((index >> 40u64) & 0xff) as u8,
        ((index >> 32u64) & 0xff) as u8,
        ((index >> 24u64) & 0xff) as u8,
        ((index >> 16u64) & 0xff) as u8,
        ((index >> 8u64) & 0xff) as u8,
        (index & 0xff) as u8,
    ];
    proof {
        assert(index == index >> 0u64) by (bit_vector);
        assert(r@ =~= key_of(index));
    }
    r
}

/// The index that a key stands for; `None` for a key that is not eight bytes.
pub fn index_from_key(key: &[u8]) -> (r: Option<u64>)
    ensures
        key@.len() != 8 <==> r is None,
        r matches Some(i) ==> key_of(i) == key@,
{
    if key.len() != 8 {
        return None;
    }
    let b0 = key[0] as u64;
    let b1 = key[1] as u64;
    let b2 = key[2] as u64;
    let b3 = key[3] as u64;
    let b4 = key[4] as u64;
    let b5 = key[5] as u64;
    let b6 = key[6] as u64;
    let b7 = key[7] as u64;
    let i: u64 = (b0 << 56u64) | (b1 << 48u64) | (b2 << 40u64) | (b3 << 32u64) | (b4 << 24u64) | (
    b5 << 16u64) | (b6 << 8u64) | b7;
    proof {
        assert(b0 < 256 && b1 < 256 && b2 < 256 && b3 < 256 && b4 < 256 && b5 < 256 && b6 < 256 && b7 < 256);
        assert(
            b0 < 256 && b1 < 256 && b2 < 256 && b3 < 256 && b4 < 256 && b5 < 256 && b6 < 256 && b7 < 256
            && i == (b0 << 56u64) | (b1 << 48u64) | (b2 << 40u64) | (b3 << 32u64) | (b4 << 24u64) | (b5 << 16u64) | (b6 << 8u64) | b7
            ==> ((i >> 56u64) & 0xff) == b0 && ((i >> 48u64) & 0xff) == b1 && ((i >> 40u64) & 0xff) == b2
            && ((i >> 32u64) & 0xff) == b3 && ((i >> 24u64) & 0xff) == b4 && ((i >> 16u64) & 0xff) == b5
            && ((i >> 8u64) & 0xff) == b6 && ((i >> 0u64) & 0xff) == b7
        ) by (bit_vector);
        assert(key_of(i) =~= key@);
    }
    Some(i)
}

proof fn lemma_byte_eq(x: u64, y: u64)
    requires
        ((x & 0xff) as u8) == ((y & 0xff) as u8),
    ensures
        (x & 0xff) == (y & 0xff),
{
    assert(x & 0xff < 256) by (bit_vector);
    assert(y & 0xff < 256) by (bit_vector);
}

/// Two indices with the same key are the same index.
pub proof fn lemma_key_injective(i: u64)
    ensures
        forall|j: u64| key_of(j) == key_of(i) ==> j == i,
{
    assert forall|j: u64| key_of(j) == key_of(i) implies j == i by {
        assert(key_of(j)[0] == key_of(i)[0]);
        lemma_byte_eq(i >> 56u64, j >> 56u64);
        assert(key_of(j)[1] == key_of(i)[1]);
        lemma_byte_eq(i >> 48u64, j >> 48u64);
        assert(key_of(j)[2] == key_of(i)[2]);
        lemma_byte_eq(i >> 40u64, j >> 40u64);
        assert(key_of(j)[3] == key_of(i)[3]);
        lemma_byte_eq(i >> 32u64, j >> 32u64);
        assert(key_of(j)[4] == key_of(i)[4]);
        lemma_byte_eq(i >> 24u64, j >> 24u64);
        assert(key_of(j)[5] == key_of(i)[5]);
        lemma_byte_eq(i >> 16u64, j >> 16u64);
        assert(key_of(j)[6] == key_of(i)[6]);
        lemma_byte_eq(i >> 8u64, j >> 8u64);
        assert(key_of(j)[7] == key_of(i)[7]);
        lemma_byte_eq(i >> 0u64, j >> 0u64);
        assert(
            ((i >> 56u64) & 0xff) == ((j >> 56u64) & 0xff) && ((i >> 48u64) & 0xff) == ((j >> 48u64) & 0xff)
            && ((i >> 40u64) & 0xff) == ((j >> 40u64) & 0xff) && ((i >> 32u64) & 0xff) == ((j >> 32u64) & 0xff)
            && ((i >> 24u64) & 0xff) == ((j >> 24u64) & 0xff) && ((i >> 16u64) & 0xff) == ((j >> 16u64) & 0xff)
            && ((i >> 8u64) & 0xff) == ((j >> 8u64) & 0xff) && ((i >> 0u64) & 0xff) == ((j >> 0u64) & 0xff)
            ==> i == j
        ) by (bit_vector);
    }
}


/// `a` comes before `b` in byte-wise lexicographic order.
pub open spec fn key_less(a: Seq<u8>, b: Seq<u8>) -> bool {
    exists|k: int|
        0 <= k < a.len() && k < b.len() && a[k] < b[k] && forall|m: int| 0 <= m < k ==> #[trigger] a[m] == b[m]
}

proof fn lemma_first_difference(i: u64, j: u64, s: u64)
    requires
        i < j,
        s <= 48,
        s % 8 == 0,
        (i >> (s + 8) as u64) == (j >> (s + 8) as u64),
        (i >> s) != (j >> s),
    ensures
        ((i >> s) & 0xff) < ((j >> s) & 0xff),
{
    let s8: u64 = (s + 8) as u64;
    assert(s8 == s + 8);
    assert(i < j && s <= 48 && s8 == s + 8 && (i >> s8) == (j >> s8) && (i >> s) != (j >> s)
        ==> ((i >> s) & 0xff) < ((j >> s) & 0xff)) by (bit_vector);
}

proof fn lemma_higher_bytes_equal(i: u64, j: u64, s: u64, t: u64)
    requires
        s <= 56,
        s <= t <= 56,
        (i >> s) == (j >> s),
    ensures
        ((i >> t) & 0xff) == ((j >> t) & 0xff),
{
    assert(s <= t && t <= 56 && (i >> s) == (j >> s) ==> ((i >> t) & 0xff) == ((j >> t) & 0xff)) by (bit_vector);
}

proof fn lemma_byte_lt(x: u64, y: u64)
    requires
        (x & 0xff) < (y & 0xff),
    ensures
        ((x & 0xff) as u8) < ((y & 0xff) as u8),
{
    assert(x & 0xff < 256) by (bit_vector);
    assert(y & 0xff < 256) by (bit_vector);
}

/// Keys sort as their indices do: a smaller index has a key that comes first
/// in byte order, so a range scan over keys visits entries in index order.
pub proof fn lemma_key_order(i: u64, j: u64)
    requires
        i < j,
    ensures
        key_less(key_of(i), key_of(j)),
{
    let a = key_of(i);
    let b = key_of(j);
    assert(i >> 0u64 == i && j >> 0u64 == j) by (bit_vector);
    assert(i < j ==> (i >> 56u64) <= (j >> 56u64)) by (bit_vector);
    // the most significant byte position at which the indices differ
    let k: int = if (i >> 56u64) != (j >> 56u64) {
        0
    } else if (i >> 48u64) != (j >> 48u64) {
        1
    } else if (i >> 40u64) != (j >> 40u64) {
        2
    } else if (i >> 32u64) != (j >> 32u64) {
        3
    } else if (i >> 24u64) != (j >> 24u64) {
        4
    } else if (i >> 16u64) != (j >> 16u64) {
        5
    } else if (i >> 8u64) != (j >> 8u64) {
        6
    } else {
        7
    };
    let s: u64 = ((7 - k) * 8) as u64;
    if k == 0 {
        assert(i < j && (i >> 56u64) != (j >> 56u64) ==> ((i >> 56u64) & 0xff) < ((j >> 56u64) & 0xff)) by (bit_vector);
    } else {
        lemma_first_difference(i, j, s);
    }
    lemma_byte_lt(i >> s, j >> s);
    assert(a[k] < b[k]);
    assert forall|m: int| 0 <= m < k implies #[trigger] a[m] == b[m] by {
        let t: u64 = ((7 - m) * 8) as u64;
        lemma_higher_bytes_equal(i, j, (s + 8) as u64, t);
    }
}

} // verus!
