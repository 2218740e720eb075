//! The stack machine: two ordered stacks of byte strings and the dispatch
//! loop that interprets an instruction stream against them.
//!
//! Execution is strictly left to right, single pass, with no jumps. Any
//! failure aborts the run immediately with a typed error, and the caller
//! never observes a partially mutated stack.

use vstd::prelude::*;

use crate::errors::ScriptError;
use crate::script::{
    spec_decode_next, decode_next, Instr, SpecInstr, OP_DROP, OP_DUP, OP_PICK, OP_ROLL, OP_SWAP,
};

verus! {

/// The machine's two stacks of byte strings.
#[derive(Clone, Debug)]
pub struct Stack {
    /// The primary stack all supported opcodes work on.
    pub main: Vec<Vec<u8>>,
    /// The alternate stack; no supported opcode touches it.
    pub alt: Vec<Vec<u8>>,
}

impl Default for Stack {
    /// An empty pair of stacks.
    fn default() -> (r: Stack)
        ensures
            r.main@.len() == 0,
            r.alt@.len() == 0,
    {
        Stack { main: Vec::new(), alt: Vec::new() }
    }
}

/// The index an item stands for when an opcode needs one: its first byte,
/// with the empty string standing for zero.
pub open spec fn item_index(b: Seq<u8>) -> nat {
    if b.len() == 0 {
        0
    } else {
        b[0] as nat
    }
}

/// One machine step: what an instruction does to the main stack, or the
/// error it fails with.
pub open spec fn spec_step(ins: SpecInstr, m: Seq<Seq<u8>>) -> Result<Seq<Seq<u8>>, ScriptError> {
    match ins {
        SpecInstr::Push(b) => Ok(m.push(b)),
        SpecInstr::Op(op) => {
            if op == OP_DUP {
                if m.len() >= 1 {
                    Ok(m.push(m.last()))
                } else {
                    Err(ScriptError::Underflow)
                }
            } else if op == OP_SWAP {
                if m.len() >= 2 {
                    Ok(m.update(m.len() - 1, m[m.len() - 2]).update(m.len() - 2, m[m.len() - 1]))
                } else {
                    Err(ScriptError::Underflow)
                }
            } else if op == OP_DROP {
                if m.len() >= 1 {
                    Ok(m.drop_last())
                } else {
                    Err(ScriptError::Underflow)
                }
            } else if op == OP_PICK {
                if m.len() < 1 {
                    Err(ScriptError::Underflow)
                } else {
                    let n = item_index(m.last());
                    let rest = m.drop_last();
                    if n >= rest.len() {
                        Err(ScriptError::IndexOutOfRange)
                    } else {
                        Ok(rest.push(rest[rest.len() - 1 - n]))
                    }
                }
            } else if op == OP_ROLL {
                if m.len() < 1 {
                    Err(ScriptError::Underflow)
                } else {
                    let n = item_index(m.last());
                    let rest = m.drop_last();
                    if n >= rest.len() {
                        Err(ScriptError::IndexOutOfRange)
                    } else {
                        let idx = rest.len() - 1 - n;
                        Ok(rest.remove(idx).push(rest[idx]))
                    }
                }
            } else {
                Err(ScriptError::UnsupportedOpcode(op))
            }
        },
    }
}

/// Runs a whole script over a main stack: decode an instruction, step, and
/// continue with the remaining bytes.
pub open spec fn spec_exec(s: Seq<u8>, m: Seq<Seq<u8>>) -> Result<Seq<Seq<u8>>, ScriptError>
    decreases s.len(),
{
    if s.len() == 0 {
        Ok(m)
    } else {
        match spec_decode_next(s) {
            Ok((ins, c)) => {
                if 1 <= c <= s.len() {
                    match spec_step(ins, m) {
                        Ok(m2) => spec_exec(s.skip(c as int), m2),
                        Err(e) => Err(e),
                    }
                } else {
                    arbitrary()
                }
            },
            Err(e) => Err(e),
        }
    }
}

/// How every step changes the main stack's height: a duplicate grows it by
/// exactly one and a drop shrinks it by exactly one (each failing on an empty
/// stack), a swap keeps it, a pick's clone nets the popped index against the
/// pushed copy, and a roll's move nets one below the starting height.
pub proof fn lemma_step_heights(ins: SpecInstr, m: Seq<Seq<u8>>)
    ensures
        ins matches SpecInstr::Push(b) ==> spec_step(ins, m) == Ok::<Seq<Seq<u8>>, ScriptError>(m.push(b)),
        ins == SpecInstr::Op(OP_DUP) && m.len() >= 1 ==> (spec_step(ins, m) matches Ok(m2) && m2.len() == m.len() + 1),
        ins == SpecInstr::Op(OP_DUP) && m.len() == 0 ==> spec_step(ins, m) == Err::<Seq<Seq<u8>>, ScriptError>(ScriptError::Underflow),
        ins == SpecInstr::Op(OP_DROP) && m.len() >= 1 ==> (spec_step(ins, m) matches Ok(m2) && m2.len() == m.len() - 1),
        ins == SpecInstr::Op(OP_DROP) && m.len() == 0 ==> spec_step(ins, m) == Err::<Seq<Seq<u8>>, ScriptError>(ScriptError::Underflow),
        ins == SpecInstr::Op(OP_SWAP) && m.len() >= 2 ==> (spec_step(ins, m) matches Ok(m2) && m2.len() == m.len()),
        ins == SpecInstr::Op(OP_PICK) && m.len() >= 1 && item_index(m.last()) < m.len() - 1
            ==> (spec_step(ins, m) matches Ok(m2) && m2.len() == m.len()),
        ins == SpecInstr::Op(OP_ROLL) && m.len() >= 1 && item_index(m.last()) < m.len() - 1
            ==> (spec_step(ins, m) matches Ok(m2) && m2.len() == m.len() - 1),
{
}

/// Bounds are always enforced: a pick or a roll whose popped index reaches at
/// or past the bottom of the remaining stack fails with the
/// index-out-of-range error, for every index value an item can hold.
pub proof fn lemma_pick_roll_bounds(op: u8, m: Seq<Seq<u8>>)
    requires
        op == OP_PICK || op == OP_ROLL,
        m.len() >= 1,
        item_index(m.last()) >= m.len() - 1,
    ensures
        spec_step(SpecInstr::Op(op), m) == Err::<Seq<Seq<u8>>, ScriptError>(ScriptError::IndexOutOfRange),
{
}

/// For a byte string the deep view and the view agree.
proof fn lemma_bytes_deep_view(b: Vec<u8>)
    ensures
        b.deep_view() == b@,
{
    assert(b.deep_view() =~= b@);
}

/// Copies a byte string.
fn clone_bytes(v: &Vec<u8>) -> (r: Vec<u8>)
    ensures
        r@ == v@,
{
    let mut r: Vec<u8> = Vec::new();
    let mut i: usize = 0;
    while i < v.len()
        invariant
            i <= v@.len(),
            r@ == v@.take(i as int),
        decreases v@.len() - i,
    {
        r.push(v[i]);
        proof {
            assert(r@ =~= v@.take(i + 1));
        }
        i = i + 1;
    }
    proof {
        assert(v@.take(v@.len() as int) =~= v@);
    }
    r
}

/// Copies a stack of byte strings item by item.
fn clone_items(v: &Vec<Vec<u8>>) -> (r: Vec<Vec<u8>>)
    ensures
        r.deep_view() == v.deep_view(),
{
    let mut r: Vec<Vec<u8>> = Vec::new();
    let mut i: usize = 0;
    while i < v.len()
        invariant
            i <= v@.len(),
            r@.len() == i,
            forall|j: int| 0 <= j < i ==> r@[j]@ == #[trigger] v@[j]@,
        decreases v@.len() - i,
    {
        let item = clone_bytes(&v[i]);
        r.push(item);
        i = i + 1;
    }
    proof {
        assert(r.deep_view() =~= v.deep_view());
    }
    r
}

/// One executable machine step over the main stack. On failure the stack is
/// left exactly as it was.
fn exec_step(m: &mut Vec<Vec<u8>>, ins: Instr) -> (r: Result<(), ScriptError>)
    ensures
        match r {
            Ok(()) => spec_step(ins@, old(m).deep_view()) == Ok::<Seq<Seq<u8>>, ScriptError>(final(m).deep_view()),
            Err(e) => spec_step(ins@, old(m).deep_view()) == Err::<Seq<Seq<u8>>, ScriptError>(e)
                && final(m).deep_view() == old(m).deep_view(),
        },
{
    let ghost m0 = m.deep_view();
    match ins {
        Instr::Push(b) => {
            let ghost bv = b@;
            proof {
                lemma_bytes_deep_view(b);
            }
            m.push(b);
            proof {
                assert(m.deep_view() =~= m0.push(bv));
            }
            Ok(())
        },
        Instr::Op(op) => {
            if op == OP_DUP {
                if m.len() == 0 {
                    return Err(ScriptError::Underflow);
                }
                let top = clone_bytes(&m[m.len() - 1]);
                proof {
                    lemma_bytes_deep_view(top);
                }
                m.push(top);
                proof {
                    assert(m.deep_view() =~= m0.push(m0.last()));
                }
                Ok(())
            } else if op == OP_SWAP {
                if m.len() < 2 {
                    return Err(ScriptError::Underflow);
                }
                let a = m.pop().unwrap();
                let b = m.pop().unwrap();
                m.push(a);
                m.push(b);
                proof {
                    assert(m.deep_view() =~= m0.update(m0.len() - 1, m0[m0.len() - 2]).update(
                        m0.len() - 2,
                        m0[m0.len() - 1],
                    ));
                }
                Ok(())
            } else if op == OP_DROP {
                if m.len() == 0 {
                    return Err(ScriptError::Underflow);
                }
                let _ = m.pop();
                proof {
                    assert(m.deep_view() =~= m0.drop_last());
                }
                Ok(())
            } else if op == OP_PICK {
                if m.len() == 0 {
                    return Err(ScriptError::Underflow);
                }
                let len = m.len();
                let top = &m[len - 1];
                let n: usize = if top.len() == 0 {
                    0
                } else {
                    top[0] as usize
                };
                proof {
                    assert(m0.last() == m@[len - 1]@);
                    assert(item_index(m0.last()) == n as nat);
                }
                if n >= len - 1 {
                    return Err(ScriptError::IndexOutOfRange);
                }
                let item = clone_bytes(&m[len - 2 - n]);
                proof {
                    lemma_bytes_deep_view(item);
                }
                let _ = m.pop();
                m.push(item);
                proof {
                    let rest = m0.drop_last();
                    assert(rest[rest.len() - 1 - n as int] == m0[len - 2 - n as int]);
                    assert(m.deep_view() =~= rest.push(rest[rest.len() - 1 - n as int]));
                }
                Ok(())
            } else if op == OP_ROLL {
                if m.len() == 0 {
                    return Err(ScriptError::Underflow);
                }
                let len = m.len();
                let top = &m[len - 1];
                let n: usize = if top.len() == 0 {
                    0
                } else {
                    top[0] as usize
                };
                proof {
                    assert(m0.last() == m@[len - 1]@);
                    assert(item_index(m0.last()) == n as nat);
                }
                if n >= len - 1 {
                    return Err(ScriptError::IndexOutOfRange);
                }
                let _ = m.pop();
                let item = m.remove(len - 2 - n);
                m.push(item);
                proof {
                    let rest = m0.drop_last();
                    let idx = rest.len() - 1 - n as int;
                    assert(rest[idx] == m0[len - 2 - n as int]);
                    assert(m.deep_view() =~= rest.remove(idx).push(rest[idx]));
                }
                Ok(())
            } else {
                Err(ScriptError::UnsupportedOpcode(op))
            }
        },
    }
}

impl Stack {
    /// Pushes a byte string onto the main stack.
    pub fn push(&mut self, value: Vec<u8>)
        ensures
            final(self).main@ == old(self).main@.push(value),
            final(self).main.deep_view() == old(self).main.deep_view().push(value@),
            final(self).alt == old(self).alt,
    {
        let ghost bv = value@;
        proof {
            lemma_bytes_deep_view(value);
        }
        self.main.push(value);
        proof {
            assert(self.main.deep_view() =~= old(self).main.deep_view().push(bv));
        }
    }

    /// Pops the top byte string off the main stack.
    pub fn pop(&mut self) -> (r: Vec<u8>)
        requires
            old(self).main@.len() > 0,
        ensures
            final(self).main@ == old(self).main@.drop_last(),
            final(self).main.deep_view() == old(self).main.deep_view().drop_last(),
            r == old(self).main@.last(),
            final(self).alt == old(self).alt,
    {
        let r = self.main.pop().unwrap();
        proof {
            assert(self.main.deep_view() =~= old(self).main.deep_view().drop_last());
        }
        r
    }

    /// Interprets a whole script against the main stack. On success the main
    /// stack is replaced by the run's result; on any failure the error is
    /// returned and the stack is left exactly as it was before the call.
    pub fn execute(&mut self, script: &[u8]) -> (r: Result<(), ScriptError>)
        ensures
            match r {
                Ok(()) => spec_exec(script@, old(self).main.deep_view())
                    == Ok::<Seq<Seq<u8>>, ScriptError>(final(self).main.deep_view())
                    && final(self).alt == old(self).alt,
                Err(e) => spec_exec(script@, old(self).main.deep_view())
                    == Err::<Seq<Seq<u8>>, ScriptError>(e) && *final(self) == *old(self),
            },
    {
        let ghost m0 = self.main.deep_view();
        let mut m = clone_items(&self.main);
        let mut pos: usize = 0;
        proof {
            assert(script@.skip(0) =~= script@);
        }
        while pos < script.len()
            invariant
                pos <= script@.len(),
                spec_exec(script@.skip(pos as int), m.deep_view()) == spec_exec(script@, m0),
                m0 == self.main.deep_view(),
                *self == *old(self),
            decreases script@.len() - pos,
        {
            let ghost tail = script@.skip(pos as int);
            proof {
                assert(tail.len() > 0);
            }
            match decode_next(script, pos) {
                Err(e) => {
                    return Err(e);
                },
                Ok((ins, newpos)) => {
                    let ghost c = (newpos - pos) as nat;
                    let ghost iv = ins@;
                    let ghost md = m.deep_view();
                    match exec_step(&mut m, ins) {
                        Err(e) => {
                            proof {
                                assert(spec_exec(tail, md) == Err::<Seq<Seq<u8>>, ScriptError>(e));
                            }
                            return Err(e);
                        },
                        Ok(()) => {
                            proof {
                                assert(script@.skip(newpos as int) =~= tail.skip(c as int));
                                assert(spec_exec(tail, md) == spec_exec(tail.skip(c as int), m.deep_view()));
                            }
                            pos = newpos;
                        },
                    }
                },
            }
        }
        proof {
            assert(script@.skip(pos as int) =~= Seq::<u8>::empty());
        }
        self.main = m;
        Ok(())
    }
}

} // verus!
