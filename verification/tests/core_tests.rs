//! Tests for the numeric encoder, the script codec and the stack machine.

use nprint::errors::ScriptError;
use nprint::expand::{expand_macro, hashcat, loop_unroll, xdrop, xrot, xswap, MacroDef, MacroElem};
use nprint::machine::Stack;
use nprint::num::{decode_num, encode_num};
use nprint::script::{decode_all, encode_instrs, Instr};

const OP_DUP: u8 = 0x76;
const OP_DROP: u8 = 0x75;
const OP_SWAP: u8 = 0x7c;
const OP_PICK: u8 = 0x79;
const OP_ROLL: u8 = 0x7a;

#[test]
fn test_encode_zero_is_empty() {
    assert_eq!(encode_num(0).unwrap(), Vec::<u8>::new());
}

#[test]
fn test_expand_small_int_is_compact_opcode() {
    let def = MacroDef {
        name: "just5".to_string(),
        param_count: 1,
        template: vec![MacroElem::Param(0)],
    };
    let script = expand_macro(&def, &vec![5]).unwrap();
    assert_eq!(script, vec![0x55]);
}

#[test]
fn test_encode_num_samples() {
    assert_eq!(encode_num(1).unwrap(), vec![0x01]);
    assert_eq!(encode_num(16).unwrap(), vec![0x10]);
    assert_eq!(encode_num(17).unwrap(), vec![0x11]);
    assert_eq!(encode_num(-1).unwrap(), vec![0x81]);
    assert_eq!(encode_num(127).unwrap(), vec![0x7f]);
    assert_eq!(encode_num(128).unwrap(), vec![0x80, 0x00]);
    assert_eq!(encode_num(-128).unwrap(), vec![0x80, 0x80]);
    assert_eq!(encode_num(255).unwrap(), vec![0xff, 0x00]);
    assert_eq!(encode_num(500).unwrap(), vec![0xf4, 0x01]);
    assert_eq!(encode_num(-500).unwrap(), vec![0xf4, 0x81]);
}

#[test]
fn test_num_round_trip() {
    let samples: Vec<i64> = vec![
        0,
        1,
        -1,
        16,
        17,
        -17,
        127,
        128,
        -128,
        255,
        256,
        -4095,
        65536,
        -65537,
        2147483647,
        -2147483648,
        1311768467463790320,
        i64::MAX,
        -i64::MAX,
    ];
    for n in samples {
        let bytes = encode_num(n).unwrap();
        assert!(bytes.len() <= 8);
        assert_eq!(decode_num(&bytes).unwrap(), n, "round trip failed for {}", n);
    }
}

#[test]
fn test_encode_min_fails() {
    assert_eq!(encode_num(i64::MIN), Err(ScriptError::Encoding));
}

#[test]
fn test_decode_overwide_fails() {
    let nine = vec![1u8; 9];
    assert_eq!(decode_num(&nine), Err(ScriptError::MalformedNumber));
    let eight = vec![1u8; 8];
    assert!(decode_num(&eight).is_ok());
}

#[test]
fn test_script_codec_round_trip() {
    let instrs = vec![
        Instr::Push(vec![]),
        Instr::Push(vec![5]),
        Instr::Push(vec![0]),
        Instr::Push(vec![17]),
        Instr::Push(vec![0xab; 75]),
        Instr::Push(vec![0xcd; 76]),
        Instr::Push(vec![0xef; 300]),
        Instr::Op(OP_DUP),
        Instr::Op(OP_ROLL),
    ];
    let bytes = encode_instrs(&instrs);
    let decoded = decode_all(&bytes).unwrap();
    assert_eq!(decoded, instrs);
    let re_encoded = encode_instrs(&decoded);
    assert_eq!(re_encoded, bytes);
}

#[test]
fn test_decode_chooses_push_forms() {
    // zero, compact small int, direct push, and the three prefixed forms
    assert_eq!(decode_all(&[0x00]).unwrap(), vec![Instr::Push(vec![])]);
    assert_eq!(decode_all(&[0x55]).unwrap(), vec![Instr::Push(vec![5])]);
    assert_eq!(decode_all(&[0x02, 0xaa, 0xbb]).unwrap(), vec![Instr::Push(vec![0xaa, 0xbb])]);
    assert_eq!(
        decode_all(&[0x4c, 0x01, 0x99]).unwrap(),
        vec![Instr::Push(vec![0x99])]
    );
    assert_eq!(
        decode_all(&[0x4d, 0x02, 0x00, 0x99, 0x98]).unwrap(),
        vec![Instr::Push(vec![0x99, 0x98])]
    );
    assert_eq!(
        decode_all(&[0x4e, 0x01, 0x00, 0x00, 0x00, 0x77]).unwrap(),
        vec![Instr::Push(vec![0x77])]
    );
}

#[test]
fn test_decode_unsupported_byte_fails() {
    assert_eq!(decode_all(&[0xff]), Err(ScriptError::UnsupportedOpcode(0xff)));
}

#[test]
fn test_truncated_pushdata1_fails() {
    // PUSHDATA1 declaring 2 bytes with only 1 remaining
    let mut stack = Stack::default();
    let r = stack.execute(&[0x4c, 0x02, 0xaa]);
    assert_eq!(r, Err(ScriptError::TruncatedStream));
    assert_eq!(decode_all(&[0x4c, 0x02, 0xaa]), Err(ScriptError::TruncatedStream));
}

#[test]
fn test_dup_on_single_item() {
    let mut stack = Stack::default();
    stack.push(vec![0x01]);
    stack.execute(&[OP_DUP]).unwrap();
    assert_eq!(stack.main, vec![vec![0x01], vec![0x01]]);
}

#[test]
fn test_dup_drop_is_identity() {
    let mut stack = Stack::default();
    stack.push(vec![7]);
    stack.execute(&[OP_DUP, OP_DROP]).unwrap();
    assert_eq!(stack.main, vec![vec![7]]);
}

#[test]
fn test_heights() {
    // DUP grows by exactly one
    let mut s = Stack::default();
    s.push(vec![1]);
    s.execute(&[OP_DUP]).unwrap();
    assert_eq!(s.main.len(), 2);
    // DROP shrinks by exactly one, and fails on empty
    s.execute(&[OP_DROP]).unwrap();
    assert_eq!(s.main.len(), 1);
    let mut empty = Stack::default();
    assert_eq!(empty.execute(&[OP_DROP]), Err(ScriptError::Underflow));
    assert_eq!(empty.main.len(), 0);
    // SWAP keeps the height
    let mut sw = Stack::default();
    sw.push(vec![1]);
    sw.push(vec![2]);
    sw.execute(&[OP_SWAP]).unwrap();
    assert_eq!(sw.main, vec![vec![2], vec![1]]);
    // PICK pops the index and pushes a copy: net height unchanged
    let mut pk = Stack::default();
    pk.push(vec![9]);
    pk.push(vec![8]);
    pk.push(vec![1]);
    pk.execute(&[OP_PICK]).unwrap();
    assert_eq!(pk.main, vec![vec![9], vec![8], vec![9]]);
    // ROLL pops the index and moves the item: net height one less
    let mut rl = Stack::default();
    rl.push(vec![9]);
    rl.push(vec![8]);
    rl.push(vec![1]);
    rl.execute(&[OP_ROLL]).unwrap();
    assert_eq!(rl.main, vec![vec![8], vec![9]]);
}

#[test]
fn test_dup_underflow() {
    let mut stack = Stack::default();
    assert_eq!(stack.execute(&[OP_DUP]), Err(ScriptError::Underflow));
}

#[test]
fn test_pick_roll_bounds() {
    // index equal to the remaining depth fails
    let mut s = Stack::default();
    s.push(vec![1]);
    s.push(vec![1]);
    assert_eq!(s.execute(&[OP_PICK]), Err(ScriptError::IndexOutOfRange));
    // the stack is left untouched by the failed run
    assert_eq!(s.main, vec![vec![1], vec![1]]);
    // the largest index an item's first byte can hold fails too
    let mut big = Stack::default();
    big.push(vec![2]);
    assert_eq!(
        big.execute(&[0x01, 0xff, OP_PICK]),
        Err(ScriptError::IndexOutOfRange)
    );
    let mut roll = Stack::default();
    roll.push(vec![2]);
    assert_eq!(
        roll.execute(&[0x01, 0xff, OP_ROLL]),
        Err(ScriptError::IndexOutOfRange)
    );
}

#[test]
fn test_roll_moves_item_to_top() {
    // a template pushing its argument then rolling: args = [2] moves the item
    // two below the new top onto the top
    let def = MacroDef {
        name: "rot".to_string(),
        param_count: 1,
        template: vec![MacroElem::Param(0), MacroElem::Op(OP_ROLL)],
    };
    let script = expand_macro(&def, &vec![2]).unwrap();
    let mut stack = Stack::default();
    stack.push(vec![0]);
    stack.push(vec![1]);
    stack.push(vec![2]);
    stack.execute(&script).unwrap();
    assert_eq!(stack.main, vec![vec![1], vec![2], vec![0]]);
}

#[test]
fn test_xswap_n2() {
    let mut stack = Stack::default();
    stack.push(vec![0]);
    stack.push(vec![1]);
    stack.push(vec![2]);
    let script = xswap(2);
    println!("Script for xswap(2): {:?}", script);
    let result = stack.execute(&script);
    println!("Stack after execution: {:?}", stack.main);
    assert!(result.is_ok(), "Execution failed: {:?}", result);
    assert_eq!(stack.main.len(), 3);
    assert_eq!(stack.main, vec![vec![0], vec![2], vec![1]]);
}

#[test]
fn test_expand_arity_mismatch_both_directions() {
    let def = MacroDef {
        name: "two".to_string(),
        param_count: 2,
        template: vec![MacroElem::Param(0), MacroElem::Param(1)],
    };
    assert_eq!(expand_macro(&def, &vec![1]), Err(ScriptError::ArityMismatch));
    assert_eq!(
        expand_macro(&def, &vec![1, 2, 3]),
        Err(ScriptError::ArityMismatch)
    );
    assert!(expand_macro(&def, &vec![1, 2]).is_ok());
}

#[test]
fn test_expand_deterministic() {
    let def = MacroDef {
        name: "mix".to_string(),
        param_count: 2,
        template: vec![
            MacroElem::Op(OP_DUP),
            MacroElem::Param(1),
            MacroElem::Op(OP_ROLL),
            MacroElem::Param(0),
        ],
    };
    let a = expand_macro(&def, &vec![-77, 300]).unwrap();
    let b = expand_macro(&def, &vec![-77, 300]).unwrap();
    assert_eq!(a, b);
}

#[test]
fn test_expand_general_integers_are_length_prefixed() {
    let def = MacroDef {
        name: "wide".to_string(),
        param_count: 1,
        template: vec![MacroElem::Param(0)],
    };
    // 0 emits the zero opcode
    assert_eq!(expand_macro(&def, &vec![0]).unwrap(), vec![0x00]);
    // 17 is past the compact range: a direct push of its encoding
    assert_eq!(expand_macro(&def, &vec![17]).unwrap(), vec![0x01, 0x11]);
    // negative numbers carry the sign bit in the last byte
    assert_eq!(expand_macro(&def, &vec![-1]).unwrap(), vec![0x01, 0x81]);
    assert_eq!(
        expand_macro(&def, &vec![500]).unwrap(),
        vec![0x02, 0xf4, 0x01]
    );
}

#[test]
fn test_loop_unroll_concatenates() {
    let body = vec![OP_DUP, OP_SWAP];
    let unrolled = loop_unroll(3, &body);
    assert_eq!(unrolled, vec![OP_DUP, OP_SWAP, OP_DUP, OP_SWAP, OP_DUP, OP_SWAP]);
    let mut stack = Stack::default();
    stack.push(vec![1]);
    stack.push(vec![1]);
    stack.execute(&unrolled).unwrap();
    assert_eq!(stack.main.len(), 5);
}

#[test]
fn test_xdrop_removes_nth_item() {
    // drop the item two down: push 1, roll it up, drop it
    let script = xdrop(2);
    assert_eq!(script, vec![0x51, OP_ROLL, OP_DROP]);
    let mut stack = Stack::default();
    stack.push(vec![0]);
    stack.push(vec![1]);
    stack.push(vec![2]);
    stack.execute(&script).unwrap();
    assert_eq!(stack.main, vec![vec![0], vec![2]]);
}

#[test]
fn test_xrot_rotates_nth_item() {
    let script = xrot(2);
    assert_eq!(script, vec![0x52, OP_ROLL]);
    let mut stack = Stack::default();
    stack.push(vec![0]);
    stack.push(vec![1]);
    stack.push(vec![2]);
    stack.execute(&script).unwrap();
    assert_eq!(stack.main, vec![vec![1], vec![2], vec![0]]);
}

#[test]
fn test_hashcat_bytes() {
    assert_eq!(hashcat(), vec![OP_DUP, 0xa9, 0x7e]);
}
