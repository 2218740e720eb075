//! Tests for the contract templates, the hashing helpers, the media
//! protocols and the runtime types.

use nprint::digest::{compute_sha_gate, merkle_proof, sha256};
use nprint::protocols::{AudioProtocol, DocProtocol, ImageProtocol, MediaProtocol, VideoProtocol};
use nprint::runtime::Provider;
use nprint::templates::{
    DriveChain, Hashlock, LoopUnroll, Multisig, NFT, P2PKH, RabinSig, SHAGate, Timelock, Token,
    MAST,
};
use nprint::errors::ScriptError;
use nprint::types::{wide_int_fragment, Sha256, SmartContract, ToScript};

/// SHA-256 of the three bytes "abc".
const ABC_DIGEST: [u8; 32] = [
    0xba, 0x78, 0x16, 0xbf, 0x8f, 0x01, 0xcf, 0xea, 0x41, 0x41, 0x40, 0xde, 0x5d, 0xae, 0x22,
    0x23, 0xb0, 0x03, 0x61, 0xa3, 0x96, 0x17, 0x7a, 0x9c, 0xb4, 0x10, 0xff, 0x61, 0xf2, 0x00,
    0x15, 0xad,
];

#[test]
fn test_sha256_known_answer() {
    let d = sha256(&b"abc".to_vec());
    assert_eq!(d.0, ABC_DIGEST);
    // the digest of the empty message is not the empty message
    let e = sha256(&Vec::new());
    assert_eq!(
        e.0[..4],
        [0xe3, 0xb0, 0xc4, 0x42]
    );
}

#[test]
fn test_p2pkh_compile() {
    let c = P2PKH { pkh: [0xab; 20] };
    let a = c.compile();
    let mut expected = vec![0x76, 0xa9, 0x14];
    expected.extend_from_slice(&[0xab; 20]);
    expected.extend_from_slice(&[0x88, 0xac]);
    assert_eq!(a.script, expected);
    assert_eq!(a.props, vec!["pkh".to_string()]);
    c.unlock(vec![1, 2, 3], vec![4, 5, 6]);
}

#[test]
fn test_multisig_compile() {
    let c = Multisig {
        pubkeys: vec![vec![0x01, 0x02], vec![0x03]],
        m: 1,
    };
    let a = c.compile();
    assert_eq!(
        a.script,
        vec![0x51, 0x02, 0x01, 0x02, 0x53, 0x52, 0xae]
    );
    assert_eq!(a.props, vec!["pubkeys".to_string(), "m".to_string()]);
    c.unlock(vec![vec![9]]);
}

#[test]
fn test_timelock_compile() {
    let c = Timelock { timeout: 500 };
    let a = c.compile();
    assert_eq!(a.script, vec![0x02, 0xf4, 0x01, 0xb2, 0x75]);
    assert_eq!(a.props, vec!["timeout".to_string()]);
}

#[test]
fn test_hashlock_compile_and_unlock() {
    let c = Hashlock { hash: Sha256(ABC_DIGEST) };
    let a = c.compile();
    let mut expected = vec![0xa8, 0x20];
    expected.extend_from_slice(&ABC_DIGEST);
    expected.push(0x87);
    assert_eq!(a.script, expected);
    assert_eq!(a.props, vec!["hash".to_string()]);
    assert!(c.try_unlock(b"abc".to_vec()));
    assert!(!c.try_unlock(b"abd".to_vec()));
    assert!(!c.try_unlock(Vec::new()));
}

#[test]
fn test_shagate_compile_and_unlock() {
    let c = SHAGate { hash: Sha256(ABC_DIGEST) };
    let a = c.compile();
    let mut expected = vec![0x7e, 0xa8, 0x20];
    expected.extend_from_slice(&ABC_DIGEST);
    expected.push(0x87);
    assert_eq!(a.script, expected);
    assert!(c.try_unlock(b"a".to_vec(), b"bc".to_vec()));
    assert!(!c.try_unlock(b"ab".to_vec(), b"d".to_vec()));
    let joined = compute_sha_gate(&b"abc".to_vec());
    assert_eq!(joined.0, ABC_DIGEST);
}

#[test]
fn test_rabin_token_nft_unroll_compile() {
    let r = RabinSig { rabin_pk: 77 };
    assert_eq!(r.compile().script, vec![0x01, 0x4d]);
    assert_eq!(r.compile().props, vec!["rabin_pk".to_string()]);
    r.unlock(5, vec![1]);

    let t = Token {
        tick: vec![0x41, 0x42],
        max: 21,
        data: vec![0x01],
    };
    let a = t.compile();
    assert_eq!(a.script, vec![0x02, 0x41, 0x42, 0x01, 0x15, 0x51]);
    assert_eq!(
        a.props,
        vec!["tick".to_string(), "max".to_string(), "data".to_string()]
    );
    t.mint(1, vec![0x99]);
    t.transfer(1, vec![0x99]);

    let n = NFT { id: vec![0x07, 0x08] };
    assert_eq!(n.compile().script, vec![0x02, 0x07, 0x08]);
    n.transfer(vec![0x99]);

    let l = LoopUnroll { count: 3 };
    assert_eq!(l.compile().script, vec![0x53]);
    assert_eq!(l.compile().props, vec!["count".to_string()]);
}

#[test]
fn test_drivechain_and_mast() {
    let d = DriveChain { peg_hash: Sha256(ABC_DIGEST) };
    let mut expected = vec![0x20];
    expected.extend_from_slice(&ABC_DIGEST);
    assert_eq!(d.compile().script, expected);
    d.peg_in(1, vec![0x01]);
    d.peg_out(1, vec![0x01]);

    let m = MAST { root: Sha256([0; 32]) };
    let mut expected_root = vec![0x20];
    expected_root.extend_from_slice(&[0; 32]);
    assert_eq!(m.compile().script, expected_root);
    assert_eq!(merkle_proof(&vec![1], &vec![2]).0, [0u8; 32]);
    m.execute_branch(vec![1], vec![2]);
}

#[test]
fn test_to_script_fragments() {
    assert_eq!(0i32.to_script(), vec![0x00]);
    assert_eq!(5i32.to_script(), vec![0x55]);
    assert_eq!(17i32.to_script(), vec![0x01, 0x11]);
    assert_eq!((-3i64).to_script(), vec![0x01, 0x83]);
    assert_eq!(7usize.to_script(), vec![0x57]);
    assert_eq!(9u8.to_script(), vec![0x59]);
    // the wide-integer form uses the same minimal-push rules as the narrow one
    assert_eq!(0i128.to_script(), vec![0x00]);
    assert_eq!(2i128.to_script(), vec![0x52]);
    assert_eq!(17i128.to_script(), vec![0x01, 0x11]);
    assert_eq!((-500i128).to_script(), vec![0x02, 0xf4, 0x81]);
    assert_eq!(vec![0xaa_u8, 0xbb].to_script(), vec![0x02, 0xaa, 0xbb]);
    // a single byte in the compact range pushes as the compact opcode
    assert_eq!(vec![0x05_u8].to_script(), vec![0x55]);
    // a long payload falls back to the prefixed push forms
    assert_eq!(vec![0x42_u8; 80].to_script()[..3], [0x4c, 0x50, 0x42]);
    let arr: [u8; 20] = [0x11; 20];
    let mut expected = vec![0x14];
    expected.extend_from_slice(&arr);
    assert_eq!(arr.to_script(), expected);
}

#[test]
fn test_media_protocols_verify() {
    let hash = Sha256(ABC_DIGEST);
    let img = ImageProtocol { hash };
    assert!(img.verify(b"abc".to_vec(), hash));
    assert!(!img.verify(b"abx".to_vec(), hash));
    assert_eq!(img.get_hash().0, ABC_DIGEST);

    let vid = VideoProtocol { hash };
    assert!(vid.verify(b"abc".to_vec(), hash));
    let aud = AudioProtocol { hash };
    assert!(aud.verify(b"abc".to_vec(), hash));
    let doc = DocProtocol { hash };
    assert!(doc.verify(b"abc".to_vec(), hash));
    assert!(!doc.verify(b"".to_vec(), hash));
}

#[test]
fn test_provider_new() {
    let p = Provider::new("http://node.example.com");
    assert_eq!(p.url, "http://node.example.com");
}

#[test]
fn test_wide_int_fragment_width() {
    assert_eq!(wide_int_fragment(2), Ok(vec![0x52]));
    assert_eq!(wide_int_fragment(500), Ok(vec![0x02, 0xf4, 0x01]));
    assert_eq!(wide_int_fragment((i64::MAX as i128) + 1), Err(ScriptError::Encoding));
    assert_eq!(wide_int_fragment(i64::MIN as i128), Err(ScriptError::Encoding));
    assert_eq!(wide_int_fragment(i128::MAX), Err(ScriptError::Encoding));
    assert_eq!(wide_int_fragment(i128::MIN), Err(ScriptError::Encoding));
    assert_eq!(wide_int_fragment(i64::MAX as i128), Ok(encodes_max()));
}

fn encodes_max() -> Vec<u8> {
    let mut v = vec![0x08];
    v.extend_from_slice(&[0xff, 0xff, 0xff, 0xff, 0xff, 0xff, 0xff, 0x7f]);
    v
}
