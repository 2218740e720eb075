//! The macro expander: turns a named, parameterized template (literal opcodes
//! and integer parameter slots) into a concrete script, substituting a
//! fixed-arity argument list into the slots with the same minimal-push rules
//! the codec uses.
//!
//! Expansion is a pure function of the template and the arguments: no hidden
//! counters, no randomness.

use vstd::prelude::*;

use crate::errors::ScriptError;
use crate::num::{encode_num, lemma_encode_num_len, spec_encode_num};
use crate::script::{push_payload, spec_push_bytes, OP_CAT, OP_DROP, OP_DUP, OP_HASH160, OP_ROLL};

verus! {

/// One element of a macro template: a literal opcode byte, or a 0-based slot
/// into the template's parameter list.
#[derive(Clone, Copy, Debug)]
pub enum MacroElem {
    /// Emit this opcode byte as it stands.
    Op(u8),
    /// Emit the minimal push of the argument at this position.
    Param(usize),
}

/// A named, parameterized instruction-sequence blueprint. Templates are
/// immutable once constructed and may be shared across many expansions.
#[derive(Clone, Debug)]
pub struct MacroDef {
    /// The template's identifier.
    pub name: String,
    /// How many arguments an expansion must supply.
    pub param_count: usize,
    /// The ordered elements the expansion emits.
    pub template: Vec<MacroElem>,
}

/// A template element is well formed when any slot it names lies inside the
/// declared parameter list.
pub open spec fn elem_wf(e: MacroElem, count: usize) -> bool {
    match e {
        MacroElem::Op(_) => true,
        MacroElem::Param(p) => p < count,
    }
}

impl MacroDef {
    /// The template invariant: every parameter slot satisfies
    /// `slot < param_count`.
    pub open spec fn wf(&self) -> bool {
        forall|i: int| 0 <= i < self.template@.len() ==> elem_wf(#[trigger] self.template@[i], self.param_count)
    }

    /// Checks the template invariant.
    pub fn is_wf(&self) -> (r: bool)
        ensures
            r == self.wf(),
    {
        let mut i: usize = 0;
        while i < self.template.len()
            invariant
                i <= self.template@.len(),
                forall|j: int| 0 <= j < i ==> elem_wf(#[trigger] self.template@[j], self.param_count),
            decreases self.template@.len() - i,
        {
            let ok = match self.template[i] {
                MacroElem::Op(_) => true,
                MacroElem::Param(p) => p < self.param_count,
            };
            if !ok {
                return false;
            }
            i = i + 1;
        }
        true
    }
}

/// The bytes one template element expands to.
pub open spec fn spec_elem_bytes(e: MacroElem, args: Seq<i32>) -> Seq<u8> {
    match e {
        MacroElem::Op(op) => seq![op],
        MacroElem::Param(p) => spec_push_bytes(spec_encode_num(args[p as int] as int)),
    }
}

/// The bytes a template body expands to, element by element in order.
pub open spec fn spec_expand_elems(body: Seq<MacroElem>, args: Seq<i32>) -> Seq<u8>
    decreases body.len(),
{
    if body.len() == 0 {
        Seq::empty()
    } else {
        spec_elem_bytes(body[0], args) + spec_expand_elems(body.skip(1), args)
    }
}

/// Expanding one more element appends its bytes.
pub proof fn lemma_expand_elems_push(body: Seq<MacroElem>, x: MacroElem, args: Seq<i32>)
    ensures
        spec_expand_elems(body.push(x), args) == spec_expand_elems(body, args) + spec_elem_bytes(
            x,
            args,
        ),
    decreases body.len(),
{
    if body.len() == 0 {
        assert(body.push(x).skip(1) =~= Seq::<MacroElem>::empty());
        assert(body.push(x)[0] == x);
        assert(spec_expand_elems(Seq::<MacroElem>::empty(), args) == Seq::<u8>::empty());
        assert(spec_expand_elems(body.push(x), args) =~= spec_elem_bytes(x, args));
        assert(spec_expand_elems(body, args) + spec_elem_bytes(x, args) =~= spec_elem_bytes(x, args));
    } else {
        lemma_expand_elems_push(body.skip(1), x, args);
        assert(body.push(x).skip(1) =~= body.skip(1).push(x));
        assert(body.push(x)[0] == body[0]);
        assert((spec_elem_bytes(body[0], args) + spec_expand_elems(body.skip(1), args))
            + spec_elem_bytes(x, args) =~= spec_elem_bytes(body[0], args) + (spec_expand_elems(
            body.skip(1),
            args,
        ) + spec_elem_bytes(x, args)));
    }
}

/// Determinism: expansion is a function of the template and the arguments
/// alone, so two expansions with identical inputs are byte-identical.
pub proof fn lemma_expand_deterministic(
    body: Seq<MacroElem>,
    args: Seq<i32>,
    r1: Seq<u8>,
    r2: Seq<u8>,
)
    requires
        r1 == spec_expand_elems(body, args),
        r2 == spec_expand_elems(body, args),
    ensures
        r1 == r2,
{
}

/// Expands a template with a concrete argument list. An argument list whose
/// length differs from the declared arity, in either direction, is rejected
/// with an arity-mismatch error and nothing is emitted.
pub fn expand_macro(def: &MacroDef, args: &Vec<i32>) -> (r: Result<Vec<u8>, ScriptError>)
    requires
        def.wf(),
    ensures
        args@.len() == def.param_count ==> (r matches Ok(v) && v@ == spec_expand_elems(
            def.template@,
            args@,
        )),
        args@.len() != def.param_count ==> r == Err::<Vec<u8>, ScriptError>(
            ScriptError::ArityMismatch,
        ),
{
    if args.len() != def.param_count {
        return Err(ScriptError::ArityMismatch);
    }
    let mut out: Vec<u8> = Vec::new();
    let mut i: usize = 0;
    proof {
        assert(def.template@.take(0) =~= Seq::<MacroElem>::empty());
        assert(out@ =~= spec_expand_elems(def.template@.take(0), args@));
    }
    while i < def.template.len()
        invariant
            i <= def.template@.len(),
            def.wf(),
            args@.len() == def.param_count,
            out@ == spec_expand_elems(def.template@.take(i as int), args@),
        decreases def.template@.len() - i,
    {
        proof {
            assert(elem_wf(def.template@[i as int], def.param_count));
            lemma_expand_elems_push(def.template@.take(i as int), def.template@[i as int], args@);
            assert(def.template@.take(i as int).push(def.template@[i as int]) =~= def.template@.take(
                i + 1,
            ));
        }
        let e = def.template[i];
        match e {
            MacroElem::Op(op) => {
                out.push(op);
                proof {
                    assert(out@ =~= spec_expand_elems(def.template@.take(i as int), args@) + seq![op]);
                }
            },
            MacroElem::Param(p) => {
                let n64 = args[p] as i64;
                let bytes = match encode_num(n64) {
                    Ok(b) => b,
                    Err(_) => {
                        proof {
                            assert(false);
                        }
                        Vec::new()
                    },
                };
                proof {
                    lemma_encode_num_len(n64 as int);
                }
                push_payload(&mut out, &bytes);
            },
        }
        i = i + 1;
    }
    proof {
        assert(def.template@.take(def.template@.len() as int) =~= def.template@);
    }
    Ok(out)
}

/// A script repeated a fixed number of times, end to end.
pub open spec fn spec_repeat(b: Seq<u8>, k: nat) -> Seq<u8>
    decreases k,
{
    if k == 0 {
        Seq::empty()
    } else {
        b + spec_repeat(b, (k - 1) as nat)
    }
}

/// Repeating once more appends the script.
pub proof fn lemma_repeat_snoc(b: Seq<u8>, k: nat)
    ensures
        spec_repeat(b, k + 1) == spec_repeat(b, k) + b,
    decreases k,
{
    if k == 0 {
        assert(spec_repeat(b, 0) == Seq::<u8>::empty());
        assert(spec_repeat(b, 1) =~= b);
        assert(spec_repeat(b, 0) + b =~= b);
    } else {
        lemma_repeat_snoc(b, (k - 1) as nat);
        assert(b + (spec_repeat(b, (k - 1) as nat) + b) =~= (b + spec_repeat(b, (k - 1) as nat))
            + b);
    }
}

/// The bounded static repetition construct: concatenates a sub-script a fixed
/// number of times at expansion time. There is no runtime loop in the
/// produced script.
pub fn loop_unroll(count: usize, body: &Vec<u8>) -> (r: Vec<u8>)
    ensures
        r@ == spec_repeat(body@, count as nat),
{
    let mut out: Vec<u8> = Vec::new();
    let mut i: usize = 0;
    proof {
        assert(out@ =~= spec_repeat(body@, 0));
    }
    while i < count
        invariant
            i <= count,
            out@ == spec_repeat(body@, i as nat),
        decreases count - i,
    {
        out.extend_from_slice(body.as_slice());
        proof {
            lemma_repeat_snoc(body@, i as nat);
        }
        i = i + 1;
    }
    out
}

/// Swap the top with the item `n` below it: the expansion pushes `n - 1` and
/// rolls it to the top.
pub fn xswap(n: i32) -> (r: Vec<u8>)
    requires
        n > i32::MIN,
    ensures
        r@ == spec_push_bytes(spec_encode_num(n - 1)) + seq![OP_ROLL],
{
    emit_int_then_ops(n - 1, OP_ROLL, None)
}

/// Drop the item `n` below the top: the expansion pushes `n - 1`, rolls it to
/// the top and drops it.
pub fn xdrop(n: i32) -> (r: Vec<u8>)
    requires
        n > i32::MIN,
    ensures
        r@ == spec_push_bytes(spec_encode_num(n - 1)) + seq![OP_ROLL, OP_DROP],
{
    emit_int_then_ops(n - 1, OP_ROLL, Some(OP_DROP))
}

/// Rotate the item `n` below the top to the top.
pub fn xrot(n: i32) -> (r: Vec<u8>)
    ensures
        r@ == spec_push_bytes(spec_encode_num(n as int)) + seq![OP_ROLL],
{
    emit_int_then_ops(n, OP_ROLL, None)
}

/// Duplicate the top item, hash the copy and concatenate the two.
pub fn hashcat() -> (r: Vec<u8>)
    ensures
        r@ == seq![OP_DUP, OP_HASH160, OP_CAT],
{
    let mut out: Vec<u8> = Vec::new();
    out.push(OP_DUP);
    out.push(OP_HASH160);
    out.push(OP_CAT);
    proof {
        assert(out@ =~= seq![OP_DUP, OP_HASH160, OP_CAT]);
    }
    out
}

/// Emits the minimal push of an integer followed by one or two opcodes.
fn emit_int_then_ops(n: i32, op1: u8, op2: Option<u8>) -> (r: Vec<u8>)
    ensures
        op2 matches Some(o2) ==> r@ == spec_push_bytes(spec_encode_num(n as int)) + seq![op1, o2],
        op2 is None ==> r@ == spec_push_bytes(spec_encode_num(n as int)) + seq![op1],
{
    let mut out: Vec<u8> = Vec::new();
    let bytes = match encode_num(n as i64) {
        Ok(b) => b,
        Err(_) => {
            proof {
                assert(false);
            }
            Vec::new()
        },
    };
    proof {
        lemma_encode_num_len(n as int);
        assert(out@ =~= Seq::<u8>::empty());
    }
    push_payload(&mut out, &bytes);
    out.push(op1);
    match op2 {
        Some(o2) => {
            out.push(o2);
            proof {
                assert(out@ =~= spec_push_bytes(spec_encode_num(n as int)) + seq![op1, o2]);
            }
        },
        None => {
            proof {
                assert(out@ =~= spec_push_bytes(spec_encode_num(n as int)) + seq![op1]);
            }
        },
    }
    out
}

} // verus!
