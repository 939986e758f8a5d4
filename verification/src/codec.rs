//! Fixed-width fields inside byte buffers: little-endian integers and flags.
//!
//! The two spec functions for integers are opaque, so that proofs about
//! records are not burdened with division: reveal them to compute with
//! given bytes, or use the lemmas here.

use vstd::prelude::*;

verus! {

/// The number a little-endian field of eight bytes stands for: byte `i`
/// counts `256^i` times.
#[verifier::opaque]
pub open spec fn le_u64(s: Seq<u8>) -> int
    recommends
        s.len() == 8,
{
    s[0] + 256 * (s[1] + 256 * (s[2] + 256 * (s[3] + 256 * (s[4] + 256 * (s[5] + 256 * (s[6] + 256
        * s[7]))))))
}

/// The eight bytes that stand for `x`, least significant first: byte `i` is
/// the remainder by 256 of `x` divided `i` times by 256.
#[verifier::opaque]
pub open spec fn u64_le(x: u64) -> Seq<u8> {
    let q1 = x / 256;
    let q2 = q1 / 256;
    let q3 = q2 / 256;
    let q4 = q3 / 256;
    let q5 = q4 / 256;
    let q6 = q5 / 256;
    let q7 = q6 / 256;
    seq![
        (x % 256) as u8,
        (q1 % 256) as u8,
        (q2 % 256) as u8,
        (q3 % 256) as u8,
        (q4 % 256) as u8,
        (q5 % 256) as u8,
        (q6 % 256) as u8,
        (q7 % 256) as u8,
    ]
}

/// The encoding of a number has eight bytes.
pub proof fn lemma_u64_le_len(x: u64)
    ensures
        u64_le(x).len() == 8,
{
    reveal(u64_le);
}

/// Every eight-byte field stands for a number that fits in 64 bits.
pub proof fn lemma_le_u64_range(s: Seq<u8>)
    requires
        s.len() == 8,
    ensures
        0 <= le_u64(s) <= u64::MAX,
{
    reveal(le_u64);
}

/// Decoding the encoding of a number gives the number back.
#[verifier::rlimit(50)]
pub proof fn lemma_le_u64_of_u64_le(x: u64)
    ensures
        u64_le(x).len() == 8,
        le_u64(u64_le(x)) == x,
{
    reveal(le_u64);
    reveal(u64_le);
    let q1 = x / 256;
    let q2 = q1 / 256;
    let q3 = q2 / 256;
    let q4 = q3 / 256;
    let q5 = q4 / 256;
    let q6 = q5 / 256;
    let q7 = q6 / 256;
    assert(q7 < 256);
    assert(q6 == 256 * q7 + q6 % 256);
    assert(q5 == 256 * q6 + q5 % 256);
    assert(q4 == 256 * q5 + q4 % 256);
    assert(q3 == 256 * q4 + q3 % 256);
    assert(q2 == 256 * q3 + q2 % 256);
    assert(q1 == 256 * q2 + q1 % 256);
    assert(x == 256 * q1 + x % 256);
}

/// Encoding the number an eight-byte field stands for gives the field back.
#[verifier::rlimit(50)]
pub proof fn lemma_u64_le_of_le_u64(s: Seq<u8>)
    requires
        s.len() == 8,
    ensures
        u64_le(le_u64(s) as u64) == s,
{
    reveal(le_u64);
    reveal(u64_le);
    let x = le_u64(s) as u64;
    let t6 = s[6] + 256 * s[7];
    let t5 = s[5] + 256 * t6;
    let t4 = s[4] + 256 * t5;
    let t3 = s[3] + 256 * t4;
    let t2 = s[2] + 256 * t3;
    let t1 = s[1] + 256 * t2;
    assert(x == s[0] + 256 * t1);
    let q1 = x / 256;
    assert(q1 == t1 && x % 256 == s[0]);
    let q2 = q1 / 256;
    assert(q2 == t2 && q1 % 256 == s[1]);
    let q3 = q2 / 256;
    assert(q3 == t3 && q2 % 256 == s[2]);
    let q4 = q3 / 256;
    assert(q4 == t4 && q3 % 256 == s[3]);
    let q5 = q4 / 256;
    assert(q5 == t5 && q4 % 256 == s[4]);
    let q6 = q5 / 256;
    assert(q6 == t6 && q5 % 256 == s[5]);
    let q7 = q6 / 256;
    assert(q7 == s[7] && q6 % 256 == s[6]);
    assert(u64_le(x) =~= s);
}

/// Reads the little-endian number in the eight bytes of `data` from `offset`.
pub fn read_u64_le(data: &[u8], offset: usize) -> (x: u64)
    requires
        offset + 8 <= data.len(),
    ensures
        x == le_u64(data@.subrange(offset as int, offset + 8)),
{
    proof {
        reveal(le_u64);
    }
    let b0 = data[offset] as u64;
    let b1 = data[offset + 1] as u64;
    let b2 = data[offset + 2] as u64;
    let b3 = data[offset + 3] as u64;
    let b4 = data[offset + 4] as u64;
    let b5 = data[offset + 5] as u64;
    let b6 = data[offset + 6] as u64;
    let b7 = data[offset + 7] as u64;
    b0 + 256 * (b1 + 256 * (b2 + 256 * (b3 + 256 * (b4 + 256 * (b5 + 256 * (b6 + 256 * b7))))))
}

/// The eight little-endian bytes of `x`.
pub fn u64_to_le(x: u64) -> (out: [u8; 8])
    ensures
        out@ == u64_le(x),
{
    let q1 = x / 256;
    let q2 = q1 / 256;
    let q3 = q2 / 256;
    let q4 = q3 / 256;
    let q5 = q4 / 256;
    let q6 = q5 / 256;
    let q7 = q6 / 256;
    let out = [
        (x % 256) as u8,
        (q1 % 256) as u8,
        (q2 % 256) as u8,
        (q3 % 256) as u8,
        (q4 % 256) as u8,
        (q5 % 256) as u8,
        (q6 % 256) as u8,
        (q7 % 256) as u8,
    ];
    proof {
        reveal(u64_le);
        assert(out@ =~= u64_le(x));
    }
    out
}

/// The byte that stands for a flag: 1 when set, 0 when clear.
pub open spec fn flag_byte(flag: bool) -> u8 {
    if flag {
        1
    } else {
        0
    }
}

/// Whether a byte stands for a flag. No other byte is accepted in a flag's
/// place.
pub open spec fn is_flag_byte(byte: u8) -> bool {
    byte == 0 || byte == 1
}

/// The bytes that stand for a run of flags, one byte each.
pub open spec fn flag_bytes(flags: Seq<bool>) -> Seq<u8> {
    Seq::new(flags.len(), |i: int| flag_byte(flags[i]))
}

/// The flags that `n` bytes of `bytes` from `offset` stand for.
pub open spec fn flags_at(bytes: Seq<u8>, offset: int, n: nat) -> Seq<bool> {
    Seq::new(n, |i: int| bytes[offset + i] == 1u8)
}

/// Whether each of the `n` bytes of `bytes` from `offset` stands for a flag.
pub open spec fn flag_bytes_at(bytes: Seq<u8>, offset: int, n: nat) -> bool {
    forall|i: int| offset <= i < offset + n ==> is_flag_byte(#[trigger] bytes[i])
}

/// Appends `bytes` to `out`.
pub fn put_bytes(out: &mut Vec<u8>, bytes: &[u8])
    ensures
        final(out)@ == old(out)@ + bytes@,
{
    let mut i: usize = 0;
    while i < bytes.len()
        invariant
            i <= bytes.len(),
            out@ == old(out)@ + bytes@.take(i as int),
        decreases bytes.len() - i,
    {
        out.push(bytes[i]);
        i += 1;
        assert(bytes@.take(i as int) =~= bytes@.take(i - 1).push(bytes@[i - 1]));
        assert(out@ =~= old(out)@ + bytes@.take(i as int));
    }
    assert(bytes@.take(i as int) =~= bytes@);
}

/// Appends the eight little-endian bytes of `x` to `out`.
pub fn put_u64_le(out: &mut Vec<u8>, x: u64)
    ensures
        final(out)@ == old(out)@ + u64_le(x),
{
    let bytes = u64_to_le(x);
    put_bytes(out, &bytes);
}

/// Appends the byte of `flag` to `out`.
pub fn put_flag(out: &mut Vec<u8>, flag: bool)
    ensures
        final(out)@ == old(out)@ + seq![flag_byte(flag)],
{
    out.push(if flag { 1 } else { 0 });
    assert(out@ =~= old(out)@ + seq![flag_byte(flag)]);
}

/// Appends one byte for each flag of `flags` to `out`.
pub fn put_flags(out: &mut Vec<u8>, flags: &[bool])
    ensures
        final(out)@ == old(out)@ + flag_bytes(flags@),
{
    let mut i: usize = 0;
    while i < flags.len()
        invariant
            i <= flags.len(),
            out@ == old(out)@ + flag_bytes(flags@.take(i as int)),
        decreases flags.len() - i,
    {
        out.push(if flags[i] { 1 } else { 0 });
        i += 1;
        assert(out@ =~= old(out)@ + flag_bytes(flags@.take(i as int)));
    }
    assert(flags@.take(i as int) =~= flags@);
}

} // verus!
