//! The numeric encoder: converts signed integers to the language's minimal
//! byte representation and back.
//!
//! Zero encodes to the empty byte string. Any other value encodes its
//! magnitude little-endian in the fewest bytes that represent it, with the
//! most significant bit of the last byte reserved as a sign flag; when the
//! magnitude's own top bit would collide with the flag, one extra padding
//! byte is appended.

use vstd::prelude::*;

use crate::errors::ScriptError;

verus! {

/// Little-endian bytes of a magnitude, fewest bytes possible
/// (the last byte of a non-zero magnitude is never zero).
pub open spec fn mag_bytes(m: nat) -> Seq<u8>
    decreases m,
{
    if m == 0 {
        Seq::empty()
    } else {
        seq![(m % 256) as u8] + mag_bytes(m / 256)
    }
}

/// The magnitude a little-endian byte string stands for.
pub open spec fn mag_value(b: Seq<u8>) -> nat
    decreases b.len(),
{
    if b.len() == 0 {
        0
    } else {
        b[0] as nat + 256 * mag_value(b.skip(1))
    }
}

/// 256 to the power k: the number of byte strings of length k.
pub open spec fn pow256(k: nat) -> nat
    decreases k,
{
    if k == 0 {
        1
    } else {
        256 * pow256((k - 1) as nat)
    }
}

/// The minimal sign-magnitude encoding of an integer.
pub open spec fn spec_encode_num(n: int) -> Seq<u8> {
    if n == 0 {
        Seq::empty()
    } else {
        let b = mag_bytes(if n < 0 { (-n) as nat } else { n as nat });
        if b.last() >= 0x80 {
            if n < 0 {
                b.push(0x80u8)
            } else {
                b.push(0x00u8)
            }
        } else {
            if n < 0 {
                b.update(b.len() - 1, (b.last() + 0x80) as u8)
            } else {
                b
            }
        }
    }
}

/// The integer a sign-magnitude byte string stands for: the top bit of the
/// last byte is the sign, the rest is the magnitude little-endian.
pub open spec fn spec_decode_num(b: Seq<u8>) -> int {
    if b.len() == 0 {
        0
    } else {
        let mag = mag_value(b.update(b.len() - 1, (b.last() % 0x80) as u8));
        if b.last() >= 0x80 {
            -(mag as int)
        } else {
            mag as int
        }
    }
}

pub proof fn lemma_mag_bytes_value(m: nat)
    ensures
        mag_value(mag_bytes(m)) == m,
    decreases m,
{
    if m > 0 {
        vstd::arithmetic::div_mod::lemma_fundamental_div_mod(m as int, 256);
        lemma_mag_bytes_value(m / 256);
        assert(mag_bytes(m).skip(1) =~= mag_bytes(m / 256));
    }
}

pub proof fn lemma_mag_bytes_last(m: nat)
    requires
        m > 0,
    ensures
        mag_bytes(m).len() > 0,
        mag_bytes(m).last() != 0,
    decreases m,
{
    vstd::arithmetic::div_mod::lemma_fundamental_div_mod(m as int, 256);
    if m / 256 > 0 {
        lemma_mag_bytes_last(m / 256);
        assert(mag_bytes(m).last() == mag_bytes(m / 256).last());
    } else {
        assert(mag_bytes(0) == Seq::<u8>::empty());
        assert(mag_bytes(m) =~= seq![(m % 256) as u8]);
        assert(mag_bytes(m).last() == (m % 256) as u8);
    }
}

pub proof fn lemma_mag_bytes_len(m: nat, k: nat)
    requires
        m < pow256(k),
    ensures
        mag_bytes(m).len() <= k,
    decreases k,
{
    if m > 0 {
        vstd::arithmetic::div_mod::lemma_multiply_divide_lt(m as int, 256, pow256((k - 1) as nat) as int);
        lemma_mag_bytes_len(m / 256, (k - 1) as nat);
    }
}

/// A byte string's magnitude is below 256 to its length.
pub proof fn lemma_mag_value_bound(b: Seq<u8>)
    ensures
        mag_value(b) < pow256(b.len()),
    decreases b.len(),
{
    if b.len() > 0 {
        lemma_mag_value_bound(b.skip(1));
        assert(mag_value(b) < pow256(b.len())) by (nonlinear_arith)
            requires
                mag_value(b) == b[0] as nat + 256 * mag_value(b.skip(1)),
                b[0] < 256,
                mag_value(b.skip(1)) < pow256((b.len() - 1) as nat),
                pow256(b.len()) == 256 * pow256((b.len() - 1) as nat),
        {}
    }
}

/// The last byte weighs in with its full place value.
pub proof fn lemma_mag_value_last(b: Seq<u8>)
    requires
        b.len() > 0,
    ensures
        mag_value(b) >= (b.last() as nat) * pow256((b.len() - 1) as nat),
    decreases b.len(),
{
    if b.len() == 1 {
        assert(b.skip(1) =~= Seq::<u8>::empty());
        assert(mag_value(Seq::<u8>::empty()) == 0);
        assert(pow256(0) == 1);
        assert(mag_value(b) == b[0] as nat + 256 * mag_value(b.skip(1)));
        assert(b.last() == b[0]);
        assert((b.last() as nat) * pow256((b.len() - 1) as nat) == b.last() as nat)
            by (nonlinear_arith)
            requires
                pow256((b.len() - 1) as nat) == 1,
        {}
    } else {
        lemma_mag_value_last(b.skip(1));
        assert(b.skip(1).last() == b.last());
        assert(mag_value(b) == b[0] as nat + 256 * mag_value(b.skip(1)));
        assert(pow256((b.len() - 1) as nat) == 256 * pow256((b.len() - 2) as nat));
        assert(mag_value(b) >= (b.last() as nat) * pow256((b.len() - 1) as nat)) by (nonlinear_arith)
            requires
                mag_value(b) == b[0] as nat + 256 * mag_value(b.skip(1)),
                mag_value(b.skip(1)) >= (b.last() as nat) * pow256((b.len() - 2) as nat),
                pow256((b.len() - 1) as nat) == 256 * pow256((b.len() - 2) as nat),
                b.len() >= 2,
        {}
    }
}

/// Appending a byte adds its value at the next place.
pub proof fn lemma_mag_value_push(b: Seq<u8>, x: u8)
    ensures
        mag_value(b.push(x)) == mag_value(b) + (x as nat) * pow256(b.len()),
    decreases b.len(),
{
    if b.len() == 0 {
        assert(pow256(0) == 1);
        assert(mag_value(Seq::<u8>::empty()) == 0);
        assert(b.push(x) =~= seq![x]);
        assert(seq![x].skip(1) =~= Seq::<u8>::empty());
        assert(mag_value(seq![x]) == x as nat + 256 * mag_value(seq![x].skip(1)));
        assert(mag_value(b) == 0);
    } else {
        lemma_mag_value_push(b.skip(1), x);
        assert(b.push(x).skip(1) =~= b.skip(1).push(x));
        assert(mag_value(b) == b[0] as nat + 256 * mag_value(b.skip(1)));
        assert(mag_value(b.push(x)) == b[0] as nat + 256 * mag_value(b.push(x).skip(1)));
        assert(pow256(b.len()) == 256 * pow256((b.len() - 1) as nat));
        assert(256 * (mag_value(b.skip(1)) + (x as nat) * pow256((b.len() - 1) as nat))
            == 256 * mag_value(b.skip(1)) + (x as nat) * (256 * pow256((b.len() - 1) as nat)))
            by (nonlinear_arith);
    }
}

pub proof fn lemma_pow256_values()
    ensures
        pow256(0) == 1,
        pow256(1) == 0x100,
        pow256(2) == 0x10000,
        pow256(3) == 0x1000000,
        pow256(4) == 0x100000000,
        pow256(5) == 0x10000000000,
        pow256(6) == 0x1000000000000,
        pow256(7) == 0x100000000000000,
        pow256(8) == 0x10000000000000000,
{
    assert(pow256(1) == 256 * pow256(0));
    assert(pow256(2) == 256 * pow256(1));
    assert(pow256(3) == 256 * pow256(2));
    assert(pow256(4) == 256 * pow256(3));
    assert(pow256(5) == 256 * pow256(4));
    assert(pow256(6) == 256 * pow256(5));
    assert(pow256(7) == 256 * pow256(6));
    assert(pow256(8) == 256 * pow256(7));
}

/// The encoding of an integer in the committed width takes at most 9 bytes,
/// and at most 8 when its magnitude is below 2^63.
pub proof fn lemma_encode_num_len(n: int)
    requires
        -0x8000000000000000 < n < 0x8000000000000000,
    ensures
        spec_encode_num(n).len() <= 8,
{
    if n != 0 {
        let m = (if n < 0 { -n } else { n }) as nat;
        let b = mag_bytes(m);
        lemma_pow256_values();
        lemma_mag_bytes_len(m, 8);
        lemma_mag_bytes_last(m);
        lemma_mag_bytes_value(m);
        if b.len() == 8 && b.last() >= 0x80 {
            lemma_mag_value_last(b);
            assert(m >= 0x80 * pow256(7)) by (nonlinear_arith)
                requires
                    m == mag_value(b),
                    mag_value(b) >= (b.last() as nat) * pow256(7),
                    b.last() >= 0x80,
            {}
        }
    }
}

/// Round trip: decoding the encoding of any integer in the committed width
/// gives that integer back.
pub proof fn lemma_num_round_trip(n: int)
    requires
        -0x8000000000000000 < n < 0x8000000000000000,
    ensures
        spec_decode_num(spec_encode_num(n)) == n,
{
    if n != 0 {
        let m = (if n < 0 { -n } else { n }) as nat;
        let b = mag_bytes(m);
        lemma_mag_bytes_value(m);
        lemma_mag_bytes_last(m);
        let e = spec_encode_num(n);
        if b.last() >= 0x80 {
            let pad: u8 = if n < 0 { 0x80u8 } else { 0x00u8 };
            assert(e == b.push(pad));
            assert(e.last() == pad);
            let cleared = e.update(e.len() - 1, (pad % 0x80) as u8);
            assert(cleared =~= b.push(0x00u8));
            lemma_mag_value_push(b, 0x00u8);
            assert(mag_value(cleared) == m);
        } else {
            if n < 0 {
                let last = b.last();
                assert(e == b.update(b.len() - 1, (last + 0x80) as u8));
                assert(e.last() == last + 0x80);
                let cleared = e.update(e.len() - 1, ((last + 0x80) % 0x80) as u8);
                assert((last + 0x80) % 0x80 == last % 0x80);
                assert(last % 0x80 == last);
                assert(cleared =~= b);
            } else {
                assert(e == b);
                assert(e.last() < 0x80);
                let cleared = e.update(e.len() - 1, (e.last() % 0x80) as u8);
                assert(e.last() % 0x80 == e.last());
                assert(cleared =~= b);
            }
        }
    }
}

/// Encodes an integer into its minimal sign-magnitude byte string.
/// The one magnitude that does not fit the committed 8-byte width is
/// rejected with an encoding error.
pub fn encode_num(n: i64) -> (r: Result<Vec<u8>, ScriptError>)
    ensures
        n != i64::MIN ==> (r matches Ok(v) && v@ == spec_encode_num(n as int)),
        n == i64::MIN ==> r == Err::<Vec<u8>, ScriptError>(ScriptError::Encoding),
{
    if n == i64::MIN {
        return Err(ScriptError::Encoding);
    }
    if n == 0 {
        let v: Vec<u8> = Vec::new();
        proof {
            assert(v@ =~= spec_encode_num(0));
        }
        return Ok(v);
    }
    let neg = n < 0;
    let mut m: u64 = if neg {
        (-n) as u64
    } else {
        n as u64
    };
    let ghost m0 = m as nat;
    let mut v: Vec<u8> = Vec::new();
    proof {
        assert(v@ + mag_bytes(m as nat) =~= mag_bytes(m0));
    }
    while m > 0
        invariant
            v@ + mag_bytes(m as nat) == mag_bytes(m0),
        decreases m,
    {
        let d = (m % 256) as u8;
        proof {
            assert(mag_bytes(m as nat) == seq![(m as nat % 256) as u8] + mag_bytes(m as nat / 256));
            assert(v@.push(d) + mag_bytes((m / 256) as nat) =~= v@ + mag_bytes(m as nat));
        }
        v.push(d);
        m = m / 256;
    }
    proof {
        assert(v@ =~= v@ + mag_bytes(0));
        assert(v@ == mag_bytes(m0));
        lemma_mag_bytes_last(m0);
    }
    let len = v.len();
    let last = v[len - 1];
    if last >= 0x80 {
        if neg {
            v.push(0x80);
        } else {
            v.push(0x00);
        }
    } else if neg {
        let _ = v.pop();
        v.push(last + 0x80);
        proof {
            assert(v@ =~= mag_bytes(m0).update(mag_bytes(m0).len() - 1, (mag_bytes(m0).last() + 0x80) as u8));
        }
    }
    Ok(v)
}

/// Decodes a sign-magnitude byte string back into an integer. The empty
/// string decodes to zero; strings wider than the committed 8-byte width are
/// rejected as malformed.
pub fn decode_num(b: &[u8]) -> (r: Result<i64, ScriptError>)
    ensures
        b@.len() <= 8 ==> (r matches Ok(x) && x as int == spec_decode_num(b@)),
        b@.len() > 8 ==> r == Err::<i64, ScriptError>(ScriptError::MalformedNumber),
{
    let len = b.len();
    if len > 8 {
        return Err(ScriptError::MalformedNumber);
    }
    if len == 0 {
        return Ok(0);
    }
    let last = b[len - 1];
    let neg = last >= 0x80;
    let ghost cb = b@.update(b@.len() - 1, (last % 0x80) as u8);
    proof {
        lemma_pow256_values();
        assert(cb.skip(len as int) =~= Seq::<u8>::empty());
    }
    let mut acc: u64 = (last % 0x80) as u64;
    proof {
        assert(cb.last() == (last % 0x80) as u8);
        assert(cb.skip(len - 1) =~= seq![(last % 0x80) as u8]);
        assert(seq![(last % 0x80) as u8].skip(1) =~= Seq::<u8>::empty());
        assert(mag_value(Seq::<u8>::empty()) == 0);
        assert(mag_value(seq![(last % 0x80) as u8]) == (last % 0x80) as nat
            + 256 * mag_value(seq![(last % 0x80) as u8].skip(1)));
        assert(mag_value(cb.skip(len - 1)) == acc as nat);
        lemma_mag_value_bound_cleared(cb, len - 1);
    }
    let mut i: usize = len - 1;
    while i > 0
        invariant
            0 <= i < len,
            len == b@.len() <= 8,
            cb == b@.update(b@.len() - 1, (last % 0x80) as u8),
            acc as nat == mag_value(cb.skip(i as int)),
            acc < 0x8000000000000000,
        decreases i,
    {
        proof {
            assert(cb.skip(i - 1).skip(1) =~= cb.skip(i as int));
            assert(cb[i - 1] == b@[i - 1]);
            assert(mag_value(cb.skip(i - 1)) == cb.skip(i - 1)[0] as nat
                + 256 * mag_value(cb.skip(i - 1).skip(1)));
            assert(cb.skip(i - 1)[0] == cb[i - 1]);
            lemma_mag_value_suffix_small(cb, i as int);
            lemma_mag_value_bound_cleared(cb, i - 1);
        }
        acc = (b[i - 1] as u64) + 256 * acc;
        i = i - 1;
    }
    proof {
        assert(cb.skip(0) =~= cb);
        assert(mag_value(cb) == acc as nat);
    }
    if neg {
        Ok(-(acc as i64))
    } else {
        Ok(acc as i64)
    }
}

/// The value of a short little-endian byte string, written out by place.
pub proof fn lemma_mag_value_small(b: Seq<u8>)
    requires
        1 <= b.len() <= 4,
    ensures
        mag_value(b) == b[0] as nat + (if b.len() >= 2 { 0x100 * (b[1] as nat) } else { 0nat })
            + (if b.len() >= 3 { 0x10000 * (b[2] as nat) } else { 0nat })
            + (if b.len() >= 4 { 0x1000000 * (b[3] as nat) } else { 0nat }),
    decreases b.len(),
{
    if b.len() == 1 {
        assert(b.skip(1) =~= Seq::<u8>::empty());
        assert(mag_value(Seq::<u8>::empty()) == 0);
        assert(mag_value(b) == b[0] as nat + 256 * mag_value(b.skip(1)));
    } else {
        lemma_mag_value_small(b.skip(1));
        assert(mag_value(b) == b[0] as nat + 256 * mag_value(b.skip(1)));
        assert(b.skip(1)[0] == b[1]);
        if b.len() >= 3 {
            assert(b.skip(1)[1] == b[2]);
        }
        if b.len() >= 4 {
            assert(b.skip(1)[2] == b[3]);
        }
    }
}

/// Bound for the suffixes of a byte string whose last byte has the sign bit
/// cleared: each stays below 2^63.
proof fn lemma_mag_value_bound_cleared(cb: Seq<u8>, i: int)
    requires
        0 <= i < cb.len() <= 8,
        cb.last() < 0x80,
    ensures
        mag_value(cb.skip(i)) < 0x8000000000000000,
{
    let s = cb.skip(i);
    assert(s.len() >= 1);
    assert(s.last() == cb.last());
    lemma_mag_value_upper_last(s);
    lemma_pow256_values();
    assert(pow256((s.len() - 1) as nat) <= pow256(7)) by {
        lemma_pow256_le(( s.len() - 1) as nat, 7);
    }
    assert(mag_value(s) < (s.last() as nat + 1) * pow256((s.len() - 1) as nat));
    assert((s.last() as nat + 1) * pow256((s.len() - 1) as nat) <= 0x80 * pow256(7)) by (nonlinear_arith)
        requires
            s.last() as nat + 1 <= 0x80,
            pow256((s.len() - 1) as nat) <= pow256(7),
            pow256((s.len() - 1) as nat) >= 0,
    {}
    assert(0x80 * pow256(7) == 0x8000000000000000) by {
        lemma_pow256_values();
    }
}

/// A strict suffix of a sign-cleared byte string is small enough that one
/// more byte place still fits the machine word.
proof fn lemma_mag_value_suffix_small(cb: Seq<u8>, i: int)
    requires
        1 <= i < cb.len() <= 8,
        cb.last() < 0x80,
    ensures
        mag_value(cb.skip(i)) < 0x80000000000000,
{
    let s = cb.skip(i);
    assert(s.len() >= 1);
    assert(s.last() == cb.last());
    lemma_mag_value_upper_last(s);
    lemma_pow256_le((s.len() - 1) as nat, 6);
    lemma_pow256_values();
    assert((s.last() as nat + 1) * pow256((s.len() - 1) as nat) <= 0x80 * pow256(6)) by (nonlinear_arith)
        requires
            s.last() as nat + 1 <= 0x80,
            pow256((s.len() - 1) as nat) <= pow256(6),
            pow256((s.len() - 1) as nat) >= 0,
    {}
}

/// Every byte place value is positive.
proof fn lemma_pow256_pos(k: nat)
    ensures
        pow256(k) >= 1,
    decreases k,
{
    if k > 0 {
        lemma_pow256_pos((k - 1) as nat);
    }
}

/// Monotonicity of the byte place values.
proof fn lemma_pow256_le(a: nat, b: nat)
    requires
        a <= b,
    ensures
        pow256(a) <= pow256(b),
        pow256(a) >= 1,
    decreases b,
{
    lemma_pow256_pos(a);
    if a < b {
        lemma_pow256_le(a, (b - 1) as nat);
        assert(pow256(b) == 256 * pow256((b - 1) as nat));
    }
}

/// A byte string's magnitude is bounded by its last byte's place value.
proof fn lemma_mag_value_upper_last(b: Seq<u8>)
    requires
        b.len() > 0,
    ensures
        mag_value(b) < (b.last() as nat + 1) * pow256((b.len() - 1) as nat),
    decreases b.len(),
{
    if b.len() == 1 {
        assert(b.skip(1) =~= Seq::<u8>::empty());
        assert(mag_value(Seq::<u8>::empty()) == 0);
        assert(pow256(0) == 1);
        assert(mag_value(b) == b[0] as nat + 256 * mag_value(b.skip(1)));
        assert(b.last() == b[0]);
        assert((b.last() as nat + 1) * pow256((b.len() - 1) as nat) == b.last() as nat + 1)
            by (nonlinear_arith)
            requires
                pow256((b.len() - 1) as nat) == 1,
        {}
    } else {
        lemma_mag_value_upper_last(b.skip(1));
        assert(b.skip(1).last() == b.last());
        assert(mag_value(b) == b[0] as nat + 256 * mag_value(b.skip(1)));
        assert(pow256((b.len() - 1) as nat) == 256 * pow256((b.len() - 2) as nat));
        assert(mag_value(b) < (b.last() as nat + 1) * pow256((b.len() - 1) as nat)) by (nonlinear_arith)
            requires
                mag_value(b) == b[0] as nat + 256 * mag_value(b.skip(1)),
                b[0] < 256,
                mag_value(b.skip(1)) < (b.last() as nat + 1) * pow256((b.len() - 2) as nat),
                pow256((b.len() - 1) as nat) == 256 * pow256((b.len() - 2) as nat),
                b.len() >= 2,
        {}
    }
}

} // verus!
