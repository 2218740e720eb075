//! The instruction stream: a flat byte buffer decodes, left to right and with
//! no backtracking, into a sequence of instructions. Encoding picks the same
//! minimal push form the decoder accepts, so the two are exact inverses on
//! canonical byte strings.

use vstd::prelude::*;

use crate::errors::ScriptError;
use crate::num::{lemma_mag_value_small, mag_value};

verus! {

/// Pushes the empty byte string (the language's "false"/zero).
pub const OP_0: u8 = 0x00;
/// A one-byte length header follows, then that many payload bytes.
pub const OP_PUSHDATA1: u8 = 0x4c;
/// A two-byte little-endian length header follows.
pub const OP_PUSHDATA2: u8 = 0x4d;
/// A four-byte little-endian length header follows.
pub const OP_PUSHDATA4: u8 = 0x4e;
/// Pushes the one-byte integer 1; the fifteen opcodes after it push 2..16.
pub const OP_1: u8 = 0x51;
/// Pushes the one-byte integer 16.
pub const OP_16: u8 = 0x60;
/// Pops and discards the top item.
pub const OP_DROP: u8 = 0x75;
/// Duplicates the top item.
pub const OP_DUP: u8 = 0x76;
/// Copies the item a popped index below the top back onto the top.
pub const OP_PICK: u8 = 0x79;
/// Moves the item a popped index below the top onto the top.
pub const OP_ROLL: u8 = 0x7a;
/// Swaps the top two items.
pub const OP_SWAP: u8 = 0x7c;
/// Concatenates the top two items (recognized; not executed here).
pub const OP_CAT: u8 = 0x7e;
/// Pushes whether the top two items are equal (recognized; not executed here).
pub const OP_EQUAL: u8 = 0x87;
/// Fails unless the top two items are equal (recognized; not executed here).
pub const OP_EQUALVERIFY: u8 = 0x88;
/// Hashes the top item with SHA-256 (recognized; not executed here).
pub const OP_SHA256: u8 = 0xa8;
/// Hashes the top item with RIPEMD-160 of SHA-256 (recognized; not executed here).
pub const OP_HASH160: u8 = 0xa9;
/// Checks a transaction signature (recognized; not executed here).
pub const OP_CHECKSIG: u8 = 0xac;
/// Checks a threshold of transaction signatures (recognized; not executed here).
pub const OP_CHECKMULTISIG: u8 = 0xae;
/// Enforces a relative lock time (recognized; not executed here).
pub const OP_CHECKSEQUENCEVERIFY: u8 = 0xb2;

/// The largest payload length a direct-push opcode encodes.
pub const MAX_DIRECT_PUSH: u8 = 0x4b;

/// One decoded instruction: a literal push of bytes, or a single-byte opcode
/// from the closed recognized set.
#[derive(Clone, Debug, PartialEq, Eq)]
pub enum Instr {
    /// Push the payload bytes onto the main stack.
    Push(Vec<u8>),
    /// A control/semantic opcode.
    Op(u8),
}

/// The mathematical model of an instruction.
pub enum SpecInstr {
    /// Push the payload bytes onto the main stack.
    Push(Seq<u8>),
    /// A control/semantic opcode.
    Op(u8),
}

impl View for Instr {
    type V = SpecInstr;

    open spec fn view(&self) -> SpecInstr {
        match self {
            Instr::Push(b) => SpecInstr::Push(b@),
            Instr::Op(c) => SpecInstr::Op(*c),
        }
    }
}

impl DeepView for Instr {
    type V = SpecInstr;

    open spec fn deep_view(&self) -> SpecInstr {
        self.view()
    }
}

/// The closed set of recognized non-push opcodes.
pub open spec fn is_known_op(op: u8) -> bool {
    op == OP_DROP || op == OP_DUP || op == OP_PICK || op == OP_ROLL || op == OP_SWAP
        || op == OP_CAT || op == OP_EQUAL || op == OP_EQUALVERIFY || op == OP_SHA256
        || op == OP_HASH160 || op == OP_CHECKSIG || op == OP_CHECKMULTISIG
        || op == OP_CHECKSEQUENCEVERIFY
}

/// Whether a byte is a recognized non-push opcode.
pub fn known_op(op: u8) -> (r: bool)
    ensures
        r == is_known_op(op),
{
    op == OP_DROP || op == OP_DUP || op == OP_PICK || op == OP_ROLL || op == OP_SWAP
        || op == OP_CAT || op == OP_EQUAL || op == OP_EQUALVERIFY || op == OP_SHA256
        || op == OP_HASH160 || op == OP_CHECKSIG || op == OP_CHECKMULTISIG
        || op == OP_CHECKSEQUENCEVERIFY
}

/// Decodes the first instruction of a byte string: the instruction and the
/// number of bytes it occupies.
pub open spec fn spec_decode_next(s: Seq<u8>) -> Result<(SpecInstr, nat), ScriptError>
    recommends
        s.len() > 0,
{
    let op = s[0];
    if op == OP_0 {
        Ok((SpecInstr::Push(Seq::empty()), 1nat))
    } else if op <= MAX_DIRECT_PUSH {
        if 1 + op as int <= s.len() {
            Ok((SpecInstr::Push(s.subrange(1, 1 + op as int)), (1 + op as nat) as nat))
        } else {
            Err(ScriptError::TruncatedStream)
        }
    } else if op == OP_PUSHDATA1 {
        if s.len() < 2 {
            Err(ScriptError::TruncatedStream)
        } else {
            let l = mag_value(s.subrange(1, 2)) as int;
            if 2 + l <= s.len() {
                Ok((SpecInstr::Push(s.subrange(2, 2 + l)), (2 + l) as nat))
            } else {
                Err(ScriptError::TruncatedStream)
            }
        }
    } else if op == OP_PUSHDATA2 {
        if s.len() < 3 {
            Err(ScriptError::TruncatedStream)
        } else {
            let l = mag_value(s.subrange(1, 3)) as int;
            if 3 + l <= s.len() {
                Ok((SpecInstr::Push(s.subrange(3, 3 + l)), (3 + l) as nat))
            } else {
                Err(ScriptError::TruncatedStream)
            }
        }
    } else if op == OP_PUSHDATA4 {
        if s.len() < 5 {
            Err(ScriptError::TruncatedStream)
        } else {
            let l = mag_value(s.subrange(1, 5)) as int;
            if 5 + l <= s.len() {
                Ok((SpecInstr::Push(s.subrange(5, 5 + l)), (5 + l) as nat))
            } else {
                Err(ScriptError::TruncatedStream)
            }
        }
    } else if OP_1 <= op <= OP_16 {
        Ok((SpecInstr::Push(seq![(op - 0x50) as u8]), 1nat))
    } else if is_known_op(op) {
        Ok((SpecInstr::Op(op), 1nat))
    } else {
        Err(ScriptError::UnsupportedOpcode(op))
    }
}

/// Decodes a whole byte string into its instruction sequence, left to right.
pub open spec fn spec_decode_all(s: Seq<u8>) -> Result<Seq<SpecInstr>, ScriptError>
    decreases s.len(),
{
    if s.len() == 0 {
        Ok(Seq::empty())
    } else {
        match spec_decode_next(s) {
            Ok((ins, c)) => {
                if 1 <= c <= s.len() {
                    match spec_decode_all(s.skip(c as int)) {
                        Ok(rest) => Ok(seq![ins] + rest),
                        Err(e) => Err(e),
                    }
                } else {
                    arbitrary()
                }
            },
            Err(e) => Err(e),
        }
    }
}

/// Decodes the instruction at a cursor position of a script.
pub fn decode_next(s: &[u8], pos: usize) -> (r: Result<(Instr, usize), ScriptError>)
    requires
        pos < s@.len(),
    ensures
        match r {
            Ok((ins, newpos)) => spec_decode_next(s@.skip(pos as int)) == Ok::<(SpecInstr, nat), ScriptError>((ins@, (newpos - pos) as nat))
                && pos < newpos <= s@.len(),
            Err(e) => spec_decode_next(s@.skip(pos as int)) == Err::<(SpecInstr, nat), ScriptError>(e),
        },
{
    let slen = s.len();
    let op = s[pos];
    let ghost tail = s@.skip(pos as int);
    proof {
        assert(tail[0] == s@[pos as int]);
    }
    if op == OP_0 {
        let v: Vec<u8> = Vec::new();
        proof {
            assert(v@ =~= Seq::<u8>::empty());
        }
        Ok((Instr::Push(v), pos + 1))
    } else if op <= MAX_DIRECT_PUSH {
        let l = op as usize;
        if slen - pos - 1 < l {
            proof {
                assert(tail.len() == slen - pos);
            }
            return Err(ScriptError::TruncatedStream);
        }
        let payload = read_payload(s, pos + 1, l);
        proof {
            assert(s@.subrange(pos + 1, pos + 1 + l) =~= tail.subrange(1, 1 + op as int));
        }
        Ok((Instr::Push(payload), pos + 1 + l))
    } else if op == OP_PUSHDATA1 {
        if slen - pos < 2 {
            return Err(ScriptError::TruncatedStream);
        }
        let l = s[pos + 1] as usize;
        proof {
            assert(tail.subrange(1, 2)[0] == s@[pos + 1]);
            lemma_mag_value_small(tail.subrange(1, 2));
            assert(mag_value(tail.subrange(1, 2)) == l as nat);
        }
        if slen - pos - 2 < l {
            return Err(ScriptError::TruncatedStream);
        }
        let payload = read_payload(s, pos + 2, l);
        proof {
            assert(s@.subrange(pos + 2, pos + 2 + l) =~= tail.subrange(2, 2 + l));
        }
        Ok((Instr::Push(payload), pos + 2 + l))
    } else if op == OP_PUSHDATA2 {
        if slen - pos < 3 {
            return Err(ScriptError::TruncatedStream);
        }
        let l = (s[pos + 1] as usize) + 256 * (s[pos + 2] as usize);
        proof {
            let h = tail.subrange(1, 3);
            assert(h[0] == s@[pos + 1] && h[1] == s@[pos + 2]);
            lemma_mag_value_small(h);
            assert(mag_value(h) == l as nat);
        }
        if slen - pos - 3 < l {
            return Err(ScriptError::TruncatedStream);
        }
        let payload = read_payload(s, pos + 3, l);
        proof {
            assert(s@.subrange(pos + 3, pos + 3 + l) =~= tail.subrange(3, 3 + l));
        }
        Ok((Instr::Push(payload), pos + 3 + l))
    } else if op == OP_PUSHDATA4 {
        if slen - pos < 5 {
            return Err(ScriptError::TruncatedStream);
        }
        let l64 = (s[pos + 1] as u64) + 256 * (s[pos + 2] as u64) + 0x10000 * (s[pos + 3] as u64)
            + 0x1000000 * (s[pos + 4] as u64);
        proof {
            let h = tail.subrange(1, 5);
            assert(h[0] == s@[pos + 1] && h[1] == s@[pos + 2] && h[2] == s@[pos + 3] && h[3] == s@[pos + 4]);
            lemma_mag_value_small(h);
            assert(mag_value(h) == l64 as nat);
        }
        if ((slen - pos) as u64) < 5 + l64 {
            return Err(ScriptError::TruncatedStream);
        }
        let l = l64 as usize;
        let payload = read_payload(s, pos + 5, l);
        proof {
            assert(s@.subrange(pos + 5, pos + 5 + l) =~= tail.subrange(5, 5 + l64 as int));
        }
        Ok((Instr::Push(payload), pos + 5 + l))
    } else if OP_1 <= op && op <= OP_16 {
        let mut v: Vec<u8> = Vec::new();
        v.push(op - 0x50);
        proof {
            assert(v@ =~= seq![(op - 0x50) as u8]);
        }
        Ok((Instr::Push(v), pos + 1))
    } else if known_op(op) {
        Ok((Instr::Op(op), pos + 1))
    } else {
        Err(ScriptError::UnsupportedOpcode(op))
    }
}

/// Copies a payload of a known length out of the script buffer.
fn read_payload(s: &[u8], start: usize, len: usize) -> (r: Vec<u8>)
    requires
        start + len <= s@.len(),
    ensures
        r@ == s@.subrange(start as int, start + len),
{
    let mut v: Vec<u8> = Vec::new();
    let mut i: usize = 0;
    while i < len
        invariant
            i <= len,
            start + len <= s@.len(),
            v@ == s@.subrange(start as int, start + i),
        decreases len - i,
    {
        let total = s.len();
        assert(start + i < total);
        v.push(s[start + i]);
        proof {
            assert(v@ =~= s@.subrange(start as int, start + i + 1));
        }
        i = i + 1;
    }
    v
}

/// Decodes a whole script into its instruction sequence.
pub fn decode_all(s: &[u8]) -> (r: Result<Vec<Instr>, ScriptError>)
    ensures
        match r {
            Ok(v) => spec_decode_all(s@) == Ok::<Seq<SpecInstr>, ScriptError>(v.deep_view()),
            Err(e) => spec_decode_all(s@) == Err::<Seq<SpecInstr>, ScriptError>(e),
        },
{
    let mut out: Vec<Instr> = Vec::new();
    let mut pos: usize = 0;
    proof {
        assert(s@.skip(0) =~= s@);
        assert(out.deep_view() =~= Seq::<SpecInstr>::empty());
        assert forall|rest: Seq<SpecInstr>|
            spec_decode_all(s@.skip(pos as int)) == Ok::<Seq<SpecInstr>, ScriptError>(rest)
            implies spec_decode_all(s@) == Ok::<Seq<SpecInstr>, ScriptError>(out.deep_view() + rest) by {
            assert(out.deep_view() + rest =~= rest);
        }
    }
    while pos < s.len()
        invariant
            pos <= s@.len(),
            forall|rest: Seq<SpecInstr>|
                spec_decode_all(s@.skip(pos as int)) == Ok::<Seq<SpecInstr>, ScriptError>(rest)
                    ==> spec_decode_all(s@) == Ok::<Seq<SpecInstr>, ScriptError>(out.deep_view() + rest),
            forall|e: ScriptError|
                spec_decode_all(s@.skip(pos as int)) == Err::<Seq<SpecInstr>, ScriptError>(e)
                    ==> spec_decode_all(s@) == Err::<Seq<SpecInstr>, ScriptError>(e),
        decreases s@.len() - pos,
    {
        let ghost before = s@.skip(pos as int);
        match decode_next(s, pos) {
            Ok((ins, newpos)) => {
                proof {
                    assert(before.len() > 0);
                    assert(s@.skip(newpos as int) =~= before.skip((newpos - pos) as int));
                }
                let ghost old_out = out.deep_view();
                let ghost iv = ins@;
                out.push(ins);
                proof {
                    assert(out.deep_view() =~= old_out.push(iv));
                    assert forall|rest: Seq<SpecInstr>|
                        spec_decode_all(s@.skip(newpos as int)) == Ok::<Seq<SpecInstr>, ScriptError>(rest)
                        implies spec_decode_all(s@) == Ok::<Seq<SpecInstr>, ScriptError>(out.deep_view() + rest) by {
                        assert(spec_decode_all(before) == Ok::<Seq<SpecInstr>, ScriptError>(seq![iv] + rest));
                        assert(old_out + (seq![iv] + rest) =~= out.deep_view() + rest);
                    }
                }
                pos = newpos;
            },
            Err(e) => {
                proof {
                    assert(before.len() > 0);
                }
                return Err(e);
            },
        }
    }
    proof {
        assert(s@.skip(pos as int) =~= Seq::<u8>::empty());
        assert(spec_decode_all(s@.skip(pos as int)) == Ok::<Seq<SpecInstr>, ScriptError>(Seq::<SpecInstr>::empty()));
        assert(out.deep_view() + Seq::<SpecInstr>::empty() =~= out.deep_view());
    }
    Ok(out)
}

/// Fixed-width little-endian bytes of a length header value.
pub open spec fn le_bytes(v: nat, k: nat) -> Seq<u8>
    decreases k,
{
    if k == 0 {
        Seq::empty()
    } else {
        seq![(v % 256) as u8] + le_bytes(v / 256, (k - 1) as nat)
    }
}

/// A fixed-width header holds exactly the value it was written from.
pub proof fn lemma_le_bytes_value(v: nat, k: nat)
    requires
        v < crate::num::pow256(k),
    ensures
        le_bytes(v, k).len() == k,
        mag_value(le_bytes(v, k)) == v,
    decreases k,
{
    if k == 0 {
        assert(mag_value(Seq::<u8>::empty()) == 0);
    } else {
        vstd::arithmetic::div_mod::lemma_multiply_divide_lt(
            v as int,
            256,
            crate::num::pow256((k - 1) as nat) as int,
        );
        lemma_le_bytes_value(v / 256, (k - 1) as nat);
        vstd::arithmetic::div_mod::lemma_fundamental_div_mod(v as int, 256);
        assert(le_bytes(v, k).skip(1) =~= le_bytes(v / 256, (k - 1) as nat));
        assert(mag_value(le_bytes(v, k)) == le_bytes(v, k)[0] as nat
            + 256 * mag_value(le_bytes(v, k).skip(1)));
    }
}

/// The minimal push form of a payload: the zero opcode for the empty string,
/// a compact small-integer opcode for a single byte 1..16, a direct push up
/// to 75 bytes, and the shortest length-prefixed form after that.
pub open spec fn spec_push_bytes(b: Seq<u8>) -> Seq<u8>
    recommends
        b.len() < 0x100000000,
{
    if b.len() == 0 {
        seq![OP_0]
    } else if b.len() == 1 && 1 <= b[0] <= 16 {
        seq![(0x50 + b[0]) as u8]
    } else if b.len() <= 75 {
        seq![b.len() as u8] + b
    } else if b.len() < 0x100 {
        seq![OP_PUSHDATA1] + le_bytes(b.len(), 1) + b
    } else if b.len() < 0x10000 {
        seq![OP_PUSHDATA2] + le_bytes(b.len(), 2) + b
    } else {
        seq![OP_PUSHDATA4] + le_bytes(b.len(), 4) + b
    }
}

/// A well-formed instruction: a payload the longest push form can declare,
/// or a recognized opcode.
pub open spec fn wf_instr(i: SpecInstr) -> bool {
    match i {
        SpecInstr::Push(b) => b.len() < 0x100000000,
        SpecInstr::Op(c) => is_known_op(c),
    }
}

/// The bytes one instruction encodes to.
pub open spec fn spec_encode_instr(i: SpecInstr) -> Seq<u8> {
    match i {
        SpecInstr::Push(b) => spec_push_bytes(b),
        SpecInstr::Op(c) => seq![c],
    }
}

/// The bytes an instruction sequence encodes to, in order.
pub open spec fn spec_encode_all(ins: Seq<SpecInstr>) -> Seq<u8>
    decreases ins.len(),
{
    if ins.len() == 0 {
        Seq::empty()
    } else {
        spec_encode_instr(ins[0]) + spec_encode_all(ins.skip(1))
    }
}

/// Encoding one more instruction appends its bytes.
pub proof fn lemma_encode_all_push(ins: Seq<SpecInstr>, x: SpecInstr)
    ensures
        spec_encode_all(ins.push(x)) == spec_encode_all(ins) + spec_encode_instr(x),
    decreases ins.len(),
{
    if ins.len() == 0 {
        assert(ins.push(x).skip(1) =~= Seq::<SpecInstr>::empty());
        assert(ins.push(x)[0] == x);
        assert(spec_encode_all(Seq::<SpecInstr>::empty()) == Seq::<u8>::empty());
        assert(spec_encode_all(ins.push(x)) =~= spec_encode_instr(x));
        assert(spec_encode_all(ins) + spec_encode_instr(x) =~= spec_encode_instr(x));
    } else {
        lemma_encode_all_push(ins.skip(1), x);
        assert(ins.push(x).skip(1) =~= ins.skip(1).push(x));
        assert(ins.push(x)[0] == ins[0]);
        assert((spec_encode_instr(ins[0]) + spec_encode_all(ins.skip(1))) + spec_encode_instr(x)
            =~= spec_encode_instr(ins[0]) + (spec_encode_all(ins.skip(1)) + spec_encode_instr(x)));
    }
}

/// Names the small powers of 256 the push forms compare against.
proof fn proof_pow_values()
    ensures
        crate::num::pow256(1) == 0x100,
        crate::num::pow256(2) == 0x10000,
        crate::num::pow256(4) == 0x100000000,
{
    crate::num::lemma_pow256_values();
}

/// Decoding starts over an encoded instruction by reading exactly it back,
/// whatever bytes follow.
pub proof fn lemma_decode_next_encoded(i: SpecInstr, rest: Seq<u8>)
    requires
        wf_instr(i),
    ensures
        spec_encode_instr(i).len() >= 1,
        spec_decode_next(spec_encode_instr(i) + rest) == Ok::<(SpecInstr, nat), ScriptError>(
            (i, spec_encode_instr(i).len() as nat),
        ),
{
    let e = spec_encode_instr(i);
    let s = e + rest;
    proof_pow_values();
    match i {
        SpecInstr::Push(b) => {
            if b.len() == 0 {
                assert(s[0] == OP_0);
                assert(b =~= Seq::<u8>::empty());
            } else if b.len() == 1 && 1 <= b[0] <= 16 {
                assert(s[0] == 0x50 + b[0]);
                assert(seq![((0x50 + b[0]) - 0x50) as u8] =~= b);
            } else if b.len() <= 75 {
                assert(s[0] == b.len() as u8);
                assert(s.subrange(1, 1 + b.len() as int) =~= b);
            } else if b.len() < 0x100 {
                lemma_le_bytes_value(b.len(), 1);
                assert(s[0] == OP_PUSHDATA1);
                assert(s.subrange(1, 2) =~= le_bytes(b.len(), 1));
                assert(s.subrange(2, 2 + b.len() as int) =~= b);
            } else if b.len() < 0x10000 {
                lemma_le_bytes_value(b.len(), 2);
                assert(s[0] == OP_PUSHDATA2);
                assert(s.subrange(1, 3) =~= le_bytes(b.len(), 2));
                assert(s.subrange(3, 3 + b.len() as int) =~= b);
            } else {
                lemma_le_bytes_value(b.len(), 4);
                assert(s[0] == OP_PUSHDATA4);
                assert(s.subrange(1, 5) =~= le_bytes(b.len(), 4));
                assert(s.subrange(5, 5 + b.len() as int) =~= b);
            }
        },
        SpecInstr::Op(c) => {
            assert(s[0] == c);
        },
    }
}

/// Round trip: decoding the encoding of any well-formed instruction sequence
/// gives that sequence back.
pub proof fn lemma_script_round_trip(ins: Seq<SpecInstr>)
    requires
        forall|i: int| 0 <= i < ins.len() ==> wf_instr(#[trigger] ins[i]),
    ensures
        spec_decode_all(spec_encode_all(ins)) == Ok::<Seq<SpecInstr>, ScriptError>(ins),
    decreases ins.len(),
{
    if ins.len() == 0 {
        assert(spec_encode_all(ins) =~= Seq::<u8>::empty());
        assert(ins =~= Seq::<SpecInstr>::empty());
        assert(spec_decode_all(Seq::<u8>::empty()) == Ok::<Seq<SpecInstr>, ScriptError>(
            Seq::<SpecInstr>::empty(),
        ));
    } else {
        let e0 = spec_encode_instr(ins[0]);
        let rest = spec_encode_all(ins.skip(1));
        let s = spec_encode_all(ins);
        assert(s == e0 + rest);
        lemma_decode_next_encoded(ins[0], rest);
        assert forall|j: int| 0 <= j < ins.skip(1).len() implies wf_instr(#[trigger] ins.skip(1)[j]) by {
            assert(ins.skip(1)[j] == ins[j + 1]);
        }
        lemma_script_round_trip(ins.skip(1));
        assert(s.skip(e0.len() as int) =~= rest);
        assert(s.len() >= e0.len() >= 1);
        assert(spec_decode_all(s) == Ok::<Seq<SpecInstr>, ScriptError>(seq![ins[0]] + ins.skip(1)));
        assert(seq![ins[0]] + ins.skip(1) =~= ins);
    }
}

/// On a canonical script, one that some well-formed instruction sequence
/// encodes, decoding and re-encoding gives the same bytes back.
pub proof fn lemma_encode_canonical(s: Seq<u8>, ins: Seq<SpecInstr>)
    requires
        forall|i: int| 0 <= i < ins.len() ==> wf_instr(#[trigger] ins[i]),
        s == spec_encode_all(ins),
    ensures
        spec_decode_all(s) matches Ok(d) && spec_encode_all(d) == s,
{
    lemma_script_round_trip(ins);
}

/// Appends a fixed-width little-endian length header.
fn push_le_bytes(out: &mut Vec<u8>, v: usize, k: usize)
    ensures
        final(out)@ == old(out)@ + le_bytes(v as nat, k as nat),
{
    let mut q = v;
    let mut j: usize = 0;
    proof {
        assert(out@ + le_bytes(v as nat, k as nat) =~= out@ + le_bytes(q as nat, (k - j) as nat));
    }
    while j < k
        invariant
            j <= k,
            old(out)@ + le_bytes(v as nat, k as nat) == out@ + le_bytes(q as nat, (k - j) as nat),
        decreases k - j,
    {
        let d = (q % 256) as u8;
        proof {
            assert(le_bytes(q as nat, (k - j) as nat) == seq![(q as nat % 256) as u8] + le_bytes(
                q as nat / 256,
                (k - j - 1) as nat,
            ));
            assert(out@.push(d) + le_bytes(q as nat / 256, (k - j - 1) as nat) =~= out@ + le_bytes(
                q as nat,
                (k - j) as nat,
            ));
        }
        out.push(d);
        q = q / 256;
        j = j + 1;
    }
    proof {
        assert(le_bytes(q as nat, 0) == Seq::<u8>::empty());
        assert(out@ + le_bytes(q as nat, 0) =~= out@);
    }
}

/// Appends the minimal push form of a payload.
pub(crate) fn push_payload(out: &mut Vec<u8>, b: &Vec<u8>)
    requires
        b@.len() < 0x100000000,
    ensures
        final(out)@ == old(out)@ + spec_push_bytes(b@),
{
    let len = b.len();
    if len == 0 {
        out.push(OP_0);
        proof {
            assert(out@ =~= old(out)@ + seq![OP_0]);
        }
    } else if len == 1 && b[0] >= 1 && b[0] <= 16 {
        out.push(0x50 + b[0]);
        proof {
            assert(out@ =~= old(out)@ + seq![(0x50 + b@[0]) as u8]);
        }
    } else if len <= 75 {
        out.push(len as u8);
        out.extend_from_slice(b.as_slice());
        proof {
            assert(out@ =~= old(out)@ + (seq![b@.len() as u8] + b@));
        }
    } else if len < 0x100 {
        out.push(OP_PUSHDATA1);
        push_le_bytes(out, len, 1);
        out.extend_from_slice(b.as_slice());
        proof {
            assert(out@ =~= old(out)@ + (seq![OP_PUSHDATA1] + le_bytes(b@.len(), 1) + b@));
        }
    } else if len < 0x10000 {
        out.push(OP_PUSHDATA2);
        push_le_bytes(out, len, 2);
        out.extend_from_slice(b.as_slice());
        proof {
            assert(out@ =~= old(out)@ + (seq![OP_PUSHDATA2] + le_bytes(b@.len(), 2) + b@));
        }
    } else {
        out.push(OP_PUSHDATA4);
        push_le_bytes(out, len, 4);
        out.extend_from_slice(b.as_slice());
        proof {
            assert(out@ =~= old(out)@ + (seq![OP_PUSHDATA4] + le_bytes(b@.len(), 4) + b@));
        }
    }
}

/// Encodes an instruction sequence into a script, choosing the same minimal
/// push form the decoder accepts.
pub fn encode_instrs(ins: &Vec<Instr>) -> (r: Vec<u8>)
    requires
        forall|i: int| 0 <= i < ins@.len() ==> wf_instr(#[trigger] ins.deep_view()[i]),
    ensures
        r@ == spec_encode_all(ins.deep_view()),
{
    let mut out: Vec<u8> = Vec::new();
    let mut i: usize = 0;
    proof {
        assert(ins.deep_view().take(0) =~= Seq::<SpecInstr>::empty());
        assert(out@ =~= spec_encode_all(ins.deep_view().take(0)));
    }
    while i < ins.len()
        invariant
            i <= ins@.len(),
            forall|j: int| 0 <= j < ins@.len() ==> wf_instr(#[trigger] ins.deep_view()[j]),
            out@ == spec_encode_all(ins.deep_view().take(i as int)),
        decreases ins@.len() - i,
    {
        proof {
            assert(ins.deep_view()[i as int] == ins@[i as int]@);
            lemma_encode_all_push(ins.deep_view().take(i as int), ins.deep_view()[i as int]);
            assert(ins.deep_view().take(i as int).push(ins.deep_view()[i as int]) =~= ins.deep_view().take(i + 1));
        }
        match &ins[i] {
            Instr::Push(b) => {
                push_payload(&mut out, b);
            },
            Instr::Op(c) => {
                let cc = *c;
                out.push(cc);
                proof {
                    assert(spec_encode_instr(ins.deep_view()[i as int]) =~= seq![cc]);
                    assert(out@ =~= spec_encode_all(ins.deep_view().take(i as int)) + seq![cc]);
                }
            },
        }
        i = i + 1;
    }
    proof {
        assert(ins.deep_view().take(ins@.len() as int) =~= ins.deep_view());
    }
    out
}

} // verus!
