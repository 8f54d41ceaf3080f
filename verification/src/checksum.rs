//! The checksum unit: the single-byte integrity value of a frame.

use vstd::prelude::*;

verus! {

/// XOR fold of a byte sequence: the exclusive-or of all its bytes
/// (0 for the empty sequence).
pub open spec fn xor_fold(s: Seq<u8>) -> u8
    decreases s.len(),
{
    if s.len() == 0 {
        0
    } else {
        xor_fold(s.drop_last()) ^ s.last()
    }
}

/// The checksum of a frame buffer: the XOR fold of everything from offset 5
/// on (the payload region, past the two markers and the length, id and size
/// bytes).  A buffer shorter than 5 bytes has checksum 0.
pub open spec fn spec_crc(s: Seq<u8>) -> u8 {
    if s.len() < 5 {
        0
    } else {
        xor_fold(s.skip(5))
    }
}

/// XOR fold of `buf[start..end]`.
pub(crate) fn xor_range(buf: &Vec<u8>, start: usize, end: usize) -> (r: u8)
    requires
        start <= end <= buf.len(),
    ensures
        r == xor_fold(buf@.subrange(start as int, end as int)),
{
    let mut acc: u8 = 0;
    let mut k: usize = start;
    proof {
        assert(buf@.subrange(start as int, start as int) =~= Seq::<u8>::empty());
    }
    while k < end
        invariant
            start <= k <= end <= buf.len(),
            acc == xor_fold(buf@.subrange(start as int, k as int)),
        decreases end - k,
    {
        proof {
            let pre = buf@.subrange(start as int, k as int);
            let post = buf@.subrange(start as int, k as int + 1);
            assert(post.drop_last() =~= pre);
            assert(post.last() == buf@[k as int]);
            assert(xor_fold(post) == xor_fold(pre) ^ buf@[k as int]);
        }
        acc = acc ^ buf[k];
        k = k + 1;
    }
    acc
}

/// Computes the checksum byte of a frame buffer: the XOR fold of the payload
/// region, i.e. all bytes from offset 5 up to the end of the buffer.
pub fn generate_crc(cmd: &Vec<u8>) -> (r: u8)
    ensures
        r == spec_crc(cmd@),
{
    if cmd.len() < 5 {
        return 0;
    }
    let r = xor_range(cmd, 5, cmd.len());
    proof {
        assert(cmd@.subrange(5, cmd@.len() as int) =~= cmd@.skip(5));
    }
    r
}

/// The XOR fold of a single byte is that byte.
pub proof fn lemma_xor_fold1(a: u8)
    ensures
        xor_fold(seq![a]) == a,
{
    let s1 = seq![a];
    let s0 = Seq::<u8>::empty();
    assert(s1.drop_last() =~= s0);
    assert(s1.last() == a);
    assert(xor_fold(s0) == 0);
    assert(0u8 ^ a == a) by (bit_vector);
}

/// The XOR fold of four bytes is their exclusive-or.
pub proof fn lemma_xor_fold4(a: u8, b: u8, c: u8, d: u8)
    ensures
        xor_fold(seq![a, b, c, d]) == a ^ b ^ c ^ d,
{
    let s4 = seq![a, b, c, d];
    let s3 = seq![a, b, c];
    let s2 = seq![a, b];
    let s1 = seq![a];
    assert(s4.drop_last() =~= s3);
    assert(s4.last() == d);
    assert(s3.drop_last() =~= s2);
    assert(s3.last() == c);
    assert(s2.drop_last() =~= s1);
    assert(s2.last() == b);
    lemma_xor_fold1(a);
    assert(xor_fold(s2) == a ^ b);
    assert(xor_fold(s3) == (a ^ b) ^ c);
    assert(xor_fold(s4) == ((a ^ b) ^ c) ^ d);
}

/// Replacing one byte of a sequence replaces its XOR fold by the fold of the
/// old value out and the new value in.
pub proof fn lemma_xor_fold_update(s: Seq<u8>, j: int, b: u8)
    requires
        0 <= j < s.len(),
    ensures
        xor_fold(s.update(j, b)) == xor_fold(s) ^ s[j] ^ b,
    decreases s.len(),
{
    let u = s.update(j, b);
    if j == s.len() - 1 {
        assert(u.drop_last() =~= s.drop_last());
        assert(u.last() == b);
        let x = xor_fold(s.drop_last());
        let a = s[j];
        assert(s.last() == a);
        assert(x ^ b == ((x ^ a) ^ a) ^ b) by (bit_vector);
    } else {
        let t = s.drop_last();
        assert(u.drop_last() =~= t.update(j, b));
        assert(t[j] == s[j]);
        lemma_xor_fold_update(t, j, b);
        assert(u.last() == s.last());
        let x = xor_fold(t);
        let a = s[j];
        let l = s.last();
        assert(((x ^ a) ^ b) ^ l == ((x ^ l) ^ a) ^ b) by (bit_vector);
    }
}

} // verus!
