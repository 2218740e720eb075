//! The verifier: drives the stack machine over a concrete program and a set
//! of initial stack inputs and reports pass/fail per the language's
//! truthiness rule; also drives the expander/machine pair to confirm an
//! expansion executes cleanly.

use vstd::prelude::*;

use crate::errors::ScriptError;
use crate::expand::{expand_macro, spec_expand_elems, MacroDef};
use crate::machine::{spec_exec, Stack};

verus! {

/// A verification failure: an expansion or execution error, propagated.
#[derive(Clone, Copy, Debug, PartialEq, Eq, Structural)]
pub enum VerifyError {
    /// An operation needed more stack items than were present.
    Underflow,
    /// A pick or roll index reached at or past the bottom of the stack.
    IndexOutOfRange,
    /// A byte that does not begin any known instruction (carries the byte).
    UnsupportedOpcode(u8),
    /// A declared payload length would read past the end of the buffer.
    TruncatedStream,
    /// An integer decode was given an over-wide byte string.
    MalformedNumber,
    /// A macro was expanded with the wrong number of arguments.
    ArityMismatch,
    /// An integer magnitude too large for the encoder's committed width.
    Encoding,
}

/// How the verifier reports each core error.
pub open spec fn spec_verify_error(e: ScriptError) -> VerifyError {
    match e {
        ScriptError::Underflow => VerifyError::Underflow,
        ScriptError::IndexOutOfRange => VerifyError::IndexOutOfRange,
        ScriptError::UnsupportedOpcode(op) => VerifyError::UnsupportedOpcode(op),
        ScriptError::TruncatedStream => VerifyError::TruncatedStream,
        ScriptError::MalformedNumber => VerifyError::MalformedNumber,
        ScriptError::ArityMismatch => VerifyError::ArityMismatch,
        ScriptError::Encoding => VerifyError::Encoding,
    }
}

/// Maps a core error into the verifier's error.
fn verify_error_of(e: ScriptError) -> (r: VerifyError)
    ensures
        r == spec_verify_error(e),
{
    match e {
        ScriptError::Underflow => VerifyError::Underflow,
        ScriptError::IndexOutOfRange => VerifyError::IndexOutOfRange,
        ScriptError::UnsupportedOpcode(op) => VerifyError::UnsupportedOpcode(op),
        ScriptError::TruncatedStream => VerifyError::TruncatedStream,
        ScriptError::MalformedNumber => VerifyError::MalformedNumber,
        ScriptError::ArityMismatch => VerifyError::ArityMismatch,
        ScriptError::Encoding => VerifyError::Encoding,
    }
}

/// The language's canonical truthy result: the main stack is non-empty and
/// its top item is a non-empty byte string.
pub open spec fn spec_truthy(m: Seq<Seq<u8>>) -> bool {
    m.len() > 0 && m.last().len() > 0
}

/// Runs a program over a fresh main stack holding the inputs in order.
/// Returns whether the final state is truthy: `true` exactly when execution
/// succeeds with a non-empty top item, `false` (not an error) when the final
/// top item is missing or empty, and the propagated execution error
/// otherwise.
pub fn verify_script(script: &[u8], inputs: Vec<Vec<u8>>) -> (r: Result<bool, VerifyError>)
    ensures
        match spec_exec(script@, inputs.deep_view()) {
            Ok(m) => r == Ok::<bool, VerifyError>(spec_truthy(m)),
            Err(e) => r == Err::<bool, VerifyError>(spec_verify_error(e)),
        },
{
    let mut stack = Stack { main: inputs, alt: Vec::new() };
    match stack.execute(script) {
        Err(e) => Err(verify_error_of(e)),
        Ok(()) => {
            let len = stack.main.len();
            if len == 0 {
                Ok(false)
            } else {
                proof {
                    assert(stack.main.deep_view().last() == stack.main@[len - 1]@);
                }
                Ok(stack.main[len - 1].len() > 0)
            }
        },
    }
}

/// Expands a template and executes the result over a fresh main stack holding
/// the inputs in order. Succeeds exactly when the expansion's arity matches
/// and the expanded program executes without error; the final stack's
/// truthiness is not judged here.
pub fn verify_macro(def: &MacroDef, args: &Vec<i32>, inputs: Vec<Vec<u8>>) -> (r: Result<
    (),
    VerifyError,
>)
    requires
        def.wf(),
    ensures
        args@.len() != def.param_count ==> r == Err::<(), VerifyError>(VerifyError::ArityMismatch),
        args@.len() == def.param_count ==> match spec_exec(
            spec_expand_elems(def.template@, args@),
            inputs.deep_view(),
        ) {
            Ok(m) => r == Ok::<(), VerifyError>(()),
            Err(e) => r == Err::<(), VerifyError>(spec_verify_error(e)),
        },
{
    let script = match expand_macro(def, args) {
        Ok(s) => s,
        Err(e) => {
            return Err(verify_error_of(e));
        },
    };
    let mut stack = Stack { main: inputs, alt: Vec::new() };
    match stack.execute(script.as_slice()) {
        Err(e) => Err(verify_error_of(e)),
        Ok(()) => Ok(()),
    }
}

} // verus!
