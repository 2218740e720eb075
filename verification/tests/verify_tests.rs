//! Tests for the verifier: truthiness, error propagation and macro checks.

use nprint::expand::{MacroDef, MacroElem};
use nprint::machine::Stack;
use nprint::verify::{verify_macro, verify_script, VerifyError};

const OP_DUP: u8 = 0x76;
const OP_DROP: u8 = 0x75;
const OP_PICK: u8 = 0x79;

#[test]
fn test_verify_macro() {
    let def = MacroDef {
        name: "xswap".to_string(),
        param_count: 1,
        template: vec![MacroElem::Param(0), MacroElem::Op(OP_PICK)],
    };
    let inputs = vec![vec![1], vec![2], vec![3]];
    let mut stack = Stack::default();
    for input in inputs.clone() {
        stack.push(input);
    }
    // picking with index 3 reaches past the three remaining items: the pick
    // convention counts from the top after the index is popped
    assert_eq!(
        verify_macro(&def, &vec![3], inputs.clone()),
        Err(VerifyError::IndexOutOfRange)
    );
    // index 2 reaches the bottom item and succeeds
    assert!(verify_macro(&def, &vec![2], inputs).is_ok());
    let script = vec![OP_DUP];
    assert!(verify_script(&script, stack.main).unwrap());
}

#[test]
fn test_verify_truthy_iff_nonempty_top() {
    // a compact push leaves a non-empty top: truthy
    assert_eq!(verify_script(&[0x51], vec![]), Ok(true));
    // the zero opcode pushes the empty string: present but empty, so false
    assert_eq!(verify_script(&[0x00], vec![]), Ok(false));
    // an empty program over an empty stack leaves no top at all: false
    assert_eq!(verify_script(&[], vec![]), Ok(false));
    // existing truthy input carries through an empty program
    assert_eq!(verify_script(&[], vec![vec![9]]), Ok(true));
}

#[test]
fn test_verify_drop_on_empty_underflows() {
    assert_eq!(verify_script(&[OP_DROP], vec![]), Err(VerifyError::Underflow));
}

#[test]
fn test_verify_propagates_each_error_kind() {
    // unsupported byte
    assert_eq!(
        verify_script(&[0xff], vec![]),
        Err(VerifyError::UnsupportedOpcode(0xff))
    );
    // truncated prefixed push
    assert_eq!(
        verify_script(&[0x4c, 0x02, 0xaa], vec![]),
        Err(VerifyError::TruncatedStream)
    );
    // pick past the bottom
    assert_eq!(
        verify_script(&[0x51, OP_PICK], vec![]),
        Err(VerifyError::IndexOutOfRange)
    );
}

#[test]
fn test_verify_macro_arity() {
    let def = MacroDef {
        name: "one".to_string(),
        param_count: 1,
        template: vec![MacroElem::Param(0)],
    };
    assert_eq!(
        verify_macro(&def, &vec![], vec![]),
        Err(VerifyError::ArityMismatch)
    );
    assert_eq!(
        verify_macro(&def, &vec![1, 2], vec![]),
        Err(VerifyError::ArityMismatch)
    );
    assert!(verify_macro(&def, &vec![1], vec![]).is_ok());
}
