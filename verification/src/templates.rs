//! The canned contract templates: each compiles its fields into a locking
//! script with the shared minimal-push rules, plus the named property list
//! the contract compiler reads back.

use vstd::prelude::*;
use vstd::string::StringExecFns;

use crate::digest::{compute_sha_gate, merkle_proof, sha256, sha256_of};
use crate::script::{
    OP_CAT, OP_CHECKMULTISIG, OP_CHECKSEQUENCEVERIFY, OP_CHECKSIG, OP_DROP, OP_DUP, OP_EQUAL,
    OP_EQUALVERIFY, OP_HASH160, OP_SHA256,
};
use crate::types::{Artifact, PubKey, Sha256, Sig, SmartContract, ToScript};

verus! {

/// Pay to public-key hash: the classic ownership lock.
#[derive(Clone, Debug)]
pub struct P2PKH {
    /// The 20-byte hash of the owner's public key.
    pub pkh: [u8; 20],
}

impl SmartContract for P2PKH {
    open spec fn wf(&self) -> bool {
        true
    }

    open spec fn script_spec(&self) -> Seq<u8> {
        seq![OP_DUP, OP_HASH160, 20u8] + self.pkh@ + seq![OP_EQUALVERIFY, OP_CHECKSIG]
    }

    open spec fn props_spec(&self) -> Seq<Seq<char>> {
        seq!["pkh"@]
    }

    fn compile(&self) -> (r: Artifact)
        ensures
            r.script@ == self.script_spec(),
            r.props.deep_view() == self.props_spec(),
    {
        let mut script: Vec<u8> = Vec::new();
        script.push(OP_DUP);
        script.push(OP_HASH160);
        let pkh_frag = self.pkh.to_script();
        script.extend_from_slice(pkh_frag.as_slice());
        script.push(OP_EQUALVERIFY);
        script.push(OP_CHECKSIG);
        proof {
            assert(script@ =~= self.script_spec());
        }
        let mut props: Vec<String> = Vec::new();
        props.push(String::from_str("pkh"));
        proof {
            assert(props.deep_view() =~= self.props_spec());
        }
        Artifact { script, props }
    }
}

impl P2PKH {
    /// Unlocking is handled by the wallet layer; nothing to compute here.
    pub fn unlock(&self, _pubkey: PubKey, _sig: Sig) {
    }
}

/// An m-of-n multi-signature lock.
#[derive(Clone, Debug)]
pub struct Multisig {
    /// The candidate public keys.
    pub pubkeys: Vec<PubKey>,
    /// How many signatures must match.
    pub m: usize,
}

/// The pushes of a key list, one minimal push per key in order.
pub open spec fn keys_bytes(keys: Seq<Seq<u8>>) -> Seq<u8>
    decreases keys.len(),
{
    if keys.len() == 0 {
        Seq::empty()
    } else {
        crate::script::spec_push_bytes(keys[0]) + keys_bytes(keys.skip(1))
    }
}

/// One more key appends its push.
pub proof fn lemma_keys_bytes_push(keys: Seq<Seq<u8>>, k: Seq<u8>)
    ensures
        keys_bytes(keys.push(k)) == keys_bytes(keys) + crate::script::spec_push_bytes(k),
    decreases keys.len(),
{
    if keys.len() == 0 {
        assert(keys.push(k).skip(1) =~= Seq::<Seq<u8>>::empty());
        assert(keys.push(k)[0] == k);
        assert(keys_bytes(Seq::<Seq<u8>>::empty()) == Seq::<u8>::empty());
        assert(keys_bytes(keys.push(k)) =~= crate::script::spec_push_bytes(k));
        assert(keys_bytes(keys) + crate::script::spec_push_bytes(k) =~= crate::script::spec_push_bytes(k));
    } else {
        lemma_keys_bytes_push(keys.skip(1), k);
        assert(keys.push(k).skip(1) =~= keys.skip(1).push(k));
        assert(keys.push(k)[0] == keys[0]);
        assert((crate::script::spec_push_bytes(keys[0]) + keys_bytes(keys.skip(1)))
            + crate::script::spec_push_bytes(k) =~= crate::script::spec_push_bytes(keys[0])
            + (keys_bytes(keys.skip(1)) + crate::script::spec_push_bytes(k)));
    }
}

impl SmartContract for Multisig {
    /// The threshold fits the integer push, every key fits a push form, and
    /// the key count fits one byte.
    open spec fn wf(&self) -> bool {
        &&& self.m <= i64::MAX as usize
        &&& self.pubkeys@.len() <= 255
        &&& forall|i: int| 0 <= i < self.pubkeys@.len() ==> (#[trigger] self.pubkeys@[i])@.len()
            < 0x100000000
    }

    open spec fn script_spec(&self) -> Seq<u8> {
        crate::script::spec_push_bytes(crate::num::spec_encode_num(self.m as int)) + keys_bytes(
            self.pubkeys.deep_view(),
        ) + crate::script::spec_push_bytes(
            crate::num::spec_encode_num(self.pubkeys@.len() as int),
        ) + seq![OP_CHECKMULTISIG]
    }

    open spec fn props_spec(&self) -> Seq<Seq<char>> {
        seq!["pubkeys"@, "m"@]
    }

    fn compile(&self) -> (r: Artifact)
        ensures
            r.script@ == self.script_spec(),
            r.props.deep_view() == self.props_spec(),
    {
        let mut script: Vec<u8> = Vec::new();
        let m_frag = self.m.to_script();
        script.extend_from_slice(m_frag.as_slice());
        let ghost keys = self.pubkeys.deep_view();
        let mut i: usize = 0;
        proof {
            assert(keys.take(0) =~= Seq::<Seq<u8>>::empty());
            assert(script@ =~= m_frag@ + keys_bytes(keys.take(0)));
        }
        while i < self.pubkeys.len()
            invariant
                i <= self.pubkeys@.len(),
                keys == self.pubkeys.deep_view(),
                forall|j: int| 0 <= j < self.pubkeys@.len() ==> (#[trigger] self.pubkeys@[j])@.len()
                    < 0x100000000,
                script@ == m_frag@ + keys_bytes(keys.take(i as int)),
            decreases self.pubkeys@.len() - i,
        {
            proof {
                assert(keys[i as int] == self.pubkeys@[i as int]@);
                lemma_keys_bytes_push(keys.take(i as int), keys[i as int]);
                assert(keys.take(i as int).push(keys[i as int]) =~= keys.take(i + 1));
            }
            let key_frag = self.pubkeys[i].to_script();
            script.extend_from_slice(key_frag.as_slice());
            proof {
                assert(script@ =~= m_frag@ + keys_bytes(keys.take(i + 1)));
            }
            i = i + 1;
        }
        proof {
            assert(keys.take(keys.len() as int) =~= keys);
        }
        let count: u8 = self.pubkeys.len() as u8;
        let count_frag = count.to_script();
        script.extend_from_slice(count_frag.as_slice());
        script.push(OP_CHECKMULTISIG);
        proof {
            assert(script@ =~= self.script_spec());
        }
        let mut props: Vec<String> = Vec::new();
        props.push(String::from_str("pubkeys"));
        props.push(String::from_str("m"));
        proof {
            assert(props.deep_view() =~= self.props_spec());
        }
        Artifact { script, props }
    }
}

impl Multisig {
    /// Unlocking is handled by the wallet layer; nothing to compute here.
    pub fn unlock(&self, _sigs: Vec<Sig>) {
    }
}

/// A relative time lock.
#[derive(Clone, Debug)]
pub struct Timelock {
    /// The lock's timeout, in the chain's sequence units.
    pub timeout: i128,
}

impl SmartContract for Timelock {
    /// The timeout fits the committed integer width.
    open spec fn wf(&self) -> bool {
        -0x8000000000000000 < self.timeout < 0x8000000000000000
    }

    open spec fn script_spec(&self) -> Seq<u8> {
        self.timeout.to_script_spec() + seq![OP_CHECKSEQUENCEVERIFY, OP_DROP]
    }

    open spec fn props_spec(&self) -> Seq<Seq<char>> {
        seq!["timeout"@]
    }

    fn compile(&self) -> (r: Artifact)
        ensures
            r.script@ == self.script_spec(),
            r.props.deep_view() == self.props_spec(),
    {
        let mut script: Vec<u8> = Vec::new();
        let frag = self.timeout.to_script();
        script.extend_from_slice(frag.as_slice());
        script.push(OP_CHECKSEQUENCEVERIFY);
        script.push(OP_DROP);
        proof {
            assert(script@ =~= self.script_spec());
        }
        let mut props: Vec<String> = Vec::new();
        props.push(String::from_str("timeout"));
        proof {
            assert(props.deep_view() =~= self.props_spec());
        }
        Artifact { script, props }
    }
}

/// A hash-preimage lock: spendable by whoever shows bytes hashing to the
/// committed digest.
#[derive(Clone, Debug)]
pub struct Hashlock {
    /// The committed digest.
    pub hash: Sha256,
}

impl SmartContract for Hashlock {
    open spec fn wf(&self) -> bool {
        true
    }

    open spec fn script_spec(&self) -> Seq<u8> {
        seq![OP_SHA256] + self.hash.to_script_spec() + seq![OP_EQUAL]
    }

    open spec fn props_spec(&self) -> Seq<Seq<char>> {
        seq!["hash"@]
    }

    fn compile(&self) -> (r: Artifact)
        ensures
            r.script@ == self.script_spec(),
            r.props.deep_view() == self.props_spec(),
    {
        let mut script: Vec<u8> = Vec::new();
        script.push(OP_SHA256);
        let frag = self.hash.to_script();
        script.extend_from_slice(frag.as_slice());
        script.push(OP_EQUAL);
        proof {
            assert(script@ =~= self.script_spec());
        }
        let mut props: Vec<String> = Vec::new();
        props.push(String::from_str("hash"));
        proof {
            assert(props.deep_view() =~= self.props_spec());
        }
        Artifact { script, props }
    }
}

impl Hashlock {
    /// Accepts a preimage whose digest is the committed one.
    pub fn unlock(&self, msg: Vec<u8>)
        requires
            sha256_of(msg@) == self.hash.0@,
    {
        let _ = sha256(&msg);
    }

    /// Checks a candidate preimage, and unlocks with it exactly when its
    /// digest is the committed one.
    pub fn try_unlock(&self, msg: Vec<u8>) -> (r: bool)
        ensures
            r == (sha256_of(msg@) == self.hash.0@),
    {
        let d = sha256(&msg);
        if crate::digest::digest_eq(&d, &self.hash) {
            self.unlock(msg);
            true
        } else {
            false
        }
    }
}

/// A signature scheme whose public key is committed as a bare integer.
#[derive(Clone, Debug)]
pub struct RabinSig {
    /// The committed public key.
    pub rabin_pk: i128,
}

impl SmartContract for RabinSig {
    /// The key fits the committed integer width.
    open spec fn wf(&self) -> bool {
        -0x8000000000000000 < self.rabin_pk < 0x8000000000000000
    }

    open spec fn script_spec(&self) -> Seq<u8> {
        self.rabin_pk.to_script_spec()
    }

    open spec fn props_spec(&self) -> Seq<Seq<char>> {
        seq!["rabin_pk"@]
    }

    fn compile(&self) -> (r: Artifact)
        ensures
            r.script@ == self.script_spec(),
            r.props.deep_view() == self.props_spec(),
    {
        let script = self.rabin_pk.to_script();
        let mut props: Vec<String> = Vec::new();
        props.push(String::from_str("rabin_pk"));
        proof {
            assert(props.deep_view() =~= self.props_spec());
        }
        Artifact { script, props }
    }
}

impl RabinSig {
    /// Signature checking is handled by the chain; nothing to compute here.
    pub fn unlock(&self, _sig: i128, _msg: Vec<u8>) {
    }
}

/// A fungible token template.
#[derive(Clone, Debug)]
pub struct Token {
    /// The token's ticker bytes.
    pub tick: Vec<u8>,
    /// The maximum supply.
    pub max: i128,
    /// Free-form token data.
    pub data: Vec<u8>,
}

impl SmartContract for Token {
    /// Ticker and data fit direct pushes; the supply fits the integer width.
    open spec fn wf(&self) -> bool {
        &&& self.tick@.len() <= 75
        &&& self.data@.len() <= 75
        &&& -0x8000000000000000 < self.max < 0x8000000000000000
    }

    open spec fn script_spec(&self) -> Seq<u8> {
        self.tick.to_script_spec() + self.max.to_script_spec() + self.data.to_script_spec()
    }

    open spec fn props_spec(&self) -> Seq<Seq<char>> {
        seq!["tick"@, "max"@, "data"@]
    }

    fn compile(&self) -> (r: Artifact)
        ensures
            r.script@ == self.script_spec(),
            r.props.deep_view() == self.props_spec(),
    {
        let mut script: Vec<u8> = Vec::new();
        let tick_frag = self.tick.to_script();
        script.extend_from_slice(tick_frag.as_slice());
        let max_frag = self.max.to_script();
        script.extend_from_slice(max_frag.as_slice());
        let data_frag = self.data.to_script();
        script.extend_from_slice(data_frag.as_slice());
        proof {
            assert(script@ =~= self.script_spec());
        }
        let mut props: Vec<String> = Vec::new();
        props.push(String::from_str("tick"));
        props.push(String::from_str("max"));
        props.push(String::from_str("data"));
        proof {
            assert(props.deep_view() =~= self.props_spec());
        }
        Artifact { script, props }
    }
}

impl Token {
    /// Minting is handled by the runtime layer; nothing to compute here.
    pub fn mint(&self, _amount: i128, _to: Vec<u8>) {
    }

    /// Transfer is handled by the runtime layer; nothing to compute here.
    pub fn transfer(&self, _amount: i128, _to: Vec<u8>) {
    }
}

/// A non-fungible token template.
#[derive(Clone, Debug)]
pub struct NFT {
    /// The token's identifier bytes.
    pub id: Vec<u8>,
}

impl SmartContract for NFT {
    /// The identifier fits a direct push.
    open spec fn wf(&self) -> bool {
        self.id@.len() <= 75
    }

    open spec fn script_spec(&self) -> Seq<u8> {
        self.id.to_script_spec()
    }

    open spec fn props_spec(&self) -> Seq<Seq<char>> {
        seq!["id"@]
    }

    fn compile(&self) -> (r: Artifact)
        ensures
            r.script@ == self.script_spec(),
            r.props.deep_view() == self.props_spec(),
    {
        let script = self.id.to_script();
        let mut props: Vec<String> = Vec::new();
        props.push(String::from_str("id"));
        proof {
            assert(props.deep_view() =~= self.props_spec());
        }
        Artifact { script, props }
    }
}

impl NFT {
    /// Transfer is handled by the runtime layer; nothing to compute here.
    pub fn transfer(&self, _to: Vec<u8>) {
    }
}

/// A template holding a static repetition count.
#[derive(Clone, Debug)]
pub struct LoopUnroll {
    /// How many times the repeated body is unrolled.
    pub count: i128,
}

impl SmartContract for LoopUnroll {
    /// The count fits the committed integer width.
    open spec fn wf(&self) -> bool {
        -0x8000000000000000 < self.count < 0x8000000000000000
    }

    open spec fn script_spec(&self) -> Seq<u8> {
        self.count.to_script_spec()
    }

    open spec fn props_spec(&self) -> Seq<Seq<char>> {
        seq!["count"@]
    }

    fn compile(&self) -> (r: Artifact)
        ensures
            r.script@ == self.script_spec(),
            r.props.deep_view() == self.props_spec(),
    {
        let script = self.count.to_script();
        let mut props: Vec<String> = Vec::new();
        props.push(String::from_str("count"));
        proof {
            assert(props.deep_view() =~= self.props_spec());
        }
        Artifact { script, props }
    }
}

/// A gate spendable by two inputs whose concatenation hashes to the
/// committed digest.
#[derive(Clone, Debug)]
pub struct SHAGate {
    /// The committed digest of the concatenated inputs.
    pub hash: Sha256,
}

impl SmartContract for SHAGate {
    open spec fn wf(&self) -> bool {
        true
    }

    open spec fn script_spec(&self) -> Seq<u8> {
        seq![OP_CAT, OP_SHA256] + self.hash.to_script_spec() + seq![OP_EQUAL]
    }

    open spec fn props_spec(&self) -> Seq<Seq<char>> {
        seq!["hash"@]
    }

    fn compile(&self) -> (r: Artifact)
        ensures
            r.script@ == self.script_spec(),
            r.props.deep_view() == self.props_spec(),
    {
        let mut script: Vec<u8> = Vec::new();
        script.push(OP_CAT);
        script.push(OP_SHA256);
        let frag = self.hash.to_script();
        script.extend_from_slice(frag.as_slice());
        script.push(OP_EQUAL);
        proof {
            assert(script@ =~= self.script_spec());
        }
        let mut props: Vec<String> = Vec::new();
        props.push(String::from_str("hash"));
        proof {
            assert(props.deep_view() =~= self.props_spec());
        }
        Artifact { script, props }
    }
}

impl SHAGate {
    /// Accepts two inputs whose concatenation hashes to the committed digest.
    pub fn unlock(&self, a: Vec<u8>, b: Vec<u8>)
        requires
            sha256_of(a@ + b@) == self.hash.0@,
    {
        let joined = concat_bytes(&a, &b);
        let _ = compute_sha_gate(&joined);
    }

    /// Checks two candidate inputs, and unlocks with them exactly when their
    /// concatenation hashes to the committed digest.
    pub fn try_unlock(&self, a: Vec<u8>, b: Vec<u8>) -> (r: bool)
        ensures
            r == (sha256_of(a@ + b@) == self.hash.0@),
    {
        let joined = concat_bytes(&a, &b);
        let d = compute_sha_gate(&joined);
        if crate::digest::digest_eq(&d, &self.hash) {
            self.unlock(a, b);
            true
        } else {
            false
        }
    }
}

/// Concatenates two byte strings.
fn concat_bytes(a: &Vec<u8>, b: &Vec<u8>) -> (r: Vec<u8>)
    ensures
        r@ == a@ + b@,
{
    let mut out: Vec<u8> = Vec::new();
    out.extend_from_slice(a.as_slice());
    out.extend_from_slice(b.as_slice());
    proof {
        assert(out@ =~= a@ + b@);
    }
    out
}

/// A sidechain peg lock committed to a digest.
#[derive(Clone, Debug)]
pub struct DriveChain {
    /// The committed peg digest.
    pub peg_hash: Sha256,
}

impl SmartContract for DriveChain {
    open spec fn wf(&self) -> bool {
        true
    }

    open spec fn script_spec(&self) -> Seq<u8> {
        self.peg_hash.to_script_spec()
    }

    open spec fn props_spec(&self) -> Seq<Seq<char>> {
        seq!["peg_hash"@]
    }

    fn compile(&self) -> (r: Artifact)
        ensures
            r.script@ == self.script_spec(),
            r.props.deep_view() == self.props_spec(),
    {
        let script = self.peg_hash.to_script();
        let mut props: Vec<String> = Vec::new();
        props.push(String::from_str("peg_hash"));
        proof {
            assert(props.deep_view() =~= self.props_spec());
        }
        Artifact { script, props }
    }
}

impl DriveChain {
    /// Pegging in is handled by the runtime layer; nothing to compute here.
    pub fn peg_in(&self, _amount: i128, _proof_data: Vec<u8>) {
    }

    /// Pegging out is handled by the runtime layer; nothing to compute here.
    pub fn peg_out(&self, _amount: i128, _to: Vec<u8>) {
    }
}

/// A merkelized script tree committed to its root digest.
#[derive(Clone, Debug)]
pub struct MAST {
    /// The committed root digest.
    pub root: Sha256,
}

impl SmartContract for MAST {
    open spec fn wf(&self) -> bool {
        true
    }

    open spec fn script_spec(&self) -> Seq<u8> {
        self.root.to_script_spec()
    }

    open spec fn props_spec(&self) -> Seq<Seq<char>> {
        seq!["root"@]
    }

    fn compile(&self) -> (r: Artifact)
        ensures
            r.script@ == self.script_spec(),
            r.props.deep_view() == self.props_spec(),
    {
        let script = self.root.to_script();
        let mut props: Vec<String> = Vec::new();
        props.push(String::from_str("root"));
        proof {
            assert(props.deep_view() =~= self.props_spec());
        }
        Artifact { script, props }
    }
}

impl MAST {
    /// Accepts a branch whose proof resolves to the committed root. The
    /// placeholder resolution accepts exactly the all-zero root.
    pub fn execute_branch(&self, branch: Vec<u8>, proof_data: Vec<u8>)
        requires
            self.root.0@ == Seq::<u8>::new(32, |i: int| 0u8),
    {
        let _ = merkle_proof(&branch, &proof_data);
    }
}

} // verus!
