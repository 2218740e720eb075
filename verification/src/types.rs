//! The shared contract-facing types: compiled artifacts, the compile and
//! script-fragment traits, and the digest value type.

use vstd::prelude::*;

use crate::errors::ScriptError;
use crate::num::{encode_num, lemma_encode_num_len, spec_encode_num};
use crate::script::{push_payload, spec_push_bytes};

verus! {

/// A compiled contract: the locking script bytes and the names of the
/// template's properties, in declaration order.
#[derive(Clone, Debug)]
pub struct Artifact {
    /// The locking script.
    pub script: Vec<u8>,
    /// The names of the template's properties.
    pub props: Vec<String>,
}

/// A SHA-256 digest value.
#[derive(Clone, Copy, Debug, PartialEq, Eq)]
pub struct Sha256(pub [u8; 32]);

/// A public key, as raw bytes.
pub type PubKey = Vec<u8>;

/// A transaction signature, as raw bytes.
pub type Sig = Vec<u8>;

/// A contract template that compiles itself into an artifact.
pub trait SmartContract {
    /// When the template's fields fit the script forms it writes.
    spec fn wf(&self) -> bool;

    /// The script bytes the template compiles to.
    spec fn script_spec(&self) -> Seq<u8>;

    /// The property names the artifact carries.
    spec fn props_spec(&self) -> Seq<Seq<char>>;

    /// Compiles the template into its artifact.
    fn compile(&self) -> (r: Artifact)
        requires
            self.wf(),
        ensures
            r.script@ == self.script_spec(),
            r.props.deep_view() == self.props_spec(),
    ;
}

/// A value that can be written as a script fragment.
pub trait ToScript {
    /// When the value fits the fragment form.
    spec fn ts_wf(&self) -> bool;

    /// The bytes the value contributes to a script.
    spec fn to_script_spec(&self) -> Seq<u8>;

    /// Writes the value as a script fragment.
    fn to_script(&self) -> (r: Vec<u8>)
        requires
            self.ts_wf(),
        ensures
            r@ == self.to_script_spec(),
    ;
}

impl ToScript for Sha256 {
    /// Always fits: a direct push of the 32 digest bytes.
    open spec fn ts_wf(&self) -> bool {
        true
    }

    open spec fn to_script_spec(&self) -> Seq<u8> {
        seq![32u8] + self.0@
    }

    fn to_script(&self) -> (r: Vec<u8>)
        ensures
            r@ == self.to_script_spec(),
    {
        let mut out: Vec<u8> = Vec::new();
        out.push(32);
        let mut i: usize = 0;
        while i < 32
            invariant
                i <= 32,
                out@.len() == 1 + i,
                out@[0] == 32u8,
                forall|j: int| 0 <= j < i ==> out@[1 + j] == self.0@[j],
            decreases 32 - i,
        {
            out.push(self.0[i]);
            i = i + 1;
        }
        proof {
            assert(out@ =~= seq![32u8] + self.0@);
        }
        out
    }
}

impl ToScript for i32 {
    /// Every value fits the committed width.
    open spec fn ts_wf(&self) -> bool {
        true
    }

    /// The minimal push of the integer.
    open spec fn to_script_spec(&self) -> Seq<u8> {
        spec_push_bytes(spec_encode_num(*self as int))
    }

    fn to_script(&self) -> (r: Vec<u8>)
        ensures
            r@ == self.to_script_spec(),
    {
        push_int_fragment(*self as i64)
    }
}

impl ToScript for i64 {
    /// All but the one magnitude outside the committed width.
    open spec fn ts_wf(&self) -> bool {
        *self != i64::MIN
    }

    /// The minimal push of the integer.
    open spec fn to_script_spec(&self) -> Seq<u8> {
        spec_push_bytes(spec_encode_num(*self as int))
    }

    fn to_script(&self) -> (r: Vec<u8>)
        ensures
            r@ == self.to_script_spec(),
    {
        push_int_fragment(*self)
    }
}

impl ToScript for i128 {
    /// Values inside the committed 8-byte width.
    open spec fn ts_wf(&self) -> bool {
        -0x8000000000000000 < *self < 0x8000000000000000
    }

    /// The minimal push of the integer, as for the narrower integer types.
    open spec fn to_script_spec(&self) -> Seq<u8> {
        spec_push_bytes(spec_encode_num(*self as int))
    }

    fn to_script(&self) -> (r: Vec<u8>)
        ensures
            r@ == self.to_script_spec(),
    {
        match wide_int_fragment(*self) {
            Ok(v) => v,
            Err(_) => {
                proof {
                    assert(false);
                }
                Vec::new()
            },
        }
    }
}

/// Writes the minimal push of a wide integer. A magnitude that does not fit
/// the committed 8-byte width is rejected with the typed encoding error,
/// never silently truncated.
pub fn wide_int_fragment(n: i128) -> (r: Result<Vec<u8>, ScriptError>)
    ensures
        -0x8000000000000000 < n < 0x8000000000000000 ==> (r matches Ok(v) && v@
            == spec_push_bytes(spec_encode_num(n as int))),
        !(-0x8000000000000000 < n < 0x8000000000000000) ==> r == Err::<Vec<u8>, ScriptError>(
            ScriptError::Encoding,
        ),
{
    if n <= -0x8000000000000000 || n >= 0x8000000000000000 {
        return Err(ScriptError::Encoding);
    }
    Ok(push_int_fragment(n as i64))
}

impl ToScript for usize {
    /// Values that fit the signed committed width.
    open spec fn ts_wf(&self) -> bool {
        *self <= i64::MAX as usize
    }

    /// The minimal push of the integer.
    open spec fn to_script_spec(&self) -> Seq<u8> {
        spec_push_bytes(spec_encode_num(*self as int))
    }

    fn to_script(&self) -> (r: Vec<u8>)
        ensures
            r@ == self.to_script_spec(),
    {
        push_int_fragment(*self as i64)
    }
}

impl ToScript for u8 {
    /// Always fits.
    open spec fn ts_wf(&self) -> bool {
        true
    }

    /// The minimal push of the integer.
    open spec fn to_script_spec(&self) -> Seq<u8> {
        spec_push_bytes(spec_encode_num(*self as int))
    }

    fn to_script(&self) -> (r: Vec<u8>)
        ensures
            r@ == self.to_script_spec(),
    {
        push_int_fragment(*self as i64)
    }
}

impl ToScript for Vec<u8> {
    /// Payloads the longest prefixed push form can declare.
    open spec fn ts_wf(&self) -> bool {
        self@.len() < 0x100000000
    }

    /// The minimal push of the bytes.
    open spec fn to_script_spec(&self) -> Seq<u8> {
        spec_push_bytes(self@)
    }

    fn to_script(&self) -> (r: Vec<u8>)
        ensures
            r@ == self.to_script_spec(),
    {
        let mut out: Vec<u8> = Vec::new();
        proof {
            assert(out@ =~= Seq::<u8>::empty());
        }
        push_payload(&mut out, self);
        proof {
            assert(Seq::<u8>::empty() + spec_push_bytes(self@) =~= spec_push_bytes(self@));
        }
        out
    }
}

impl ToScript for [u8; 20] {
    /// Always fits: a direct push of the 20 bytes.
    open spec fn ts_wf(&self) -> bool {
        true
    }

    open spec fn to_script_spec(&self) -> Seq<u8> {
        seq![20u8] + self@
    }

    fn to_script(&self) -> (r: Vec<u8>)
        ensures
            r@ == self.to_script_spec(),
    {
        let mut out: Vec<u8> = Vec::new();
        out.push(20);
        let mut i: usize = 0;
        while i < 20
            invariant
                i <= 20,
                out@.len() == 1 + i,
                out@[0] == 20u8,
                forall|j: int| 0 <= j < i ==> out@[1 + j] == self@[j],
            decreases 20 - i,
        {
            out.push(self[i]);
            i = i + 1;
        }
        proof {
            assert(out@ =~= seq![20u8] + self@);
        }
        out
    }
}

/// Writes the minimal push of an integer inside the committed width.
fn push_int_fragment(n: i64) -> (r: Vec<u8>)
    requires
        n != i64::MIN,
    ensures
        r@ == spec_push_bytes(spec_encode_num(n as int)),
{
    let bytes = match encode_num(n) {
        Ok(b) => b,
        Err(_) => {
            proof {
                assert(false);
            }
            Vec::new()
        },
    };
    proof {
        lemma_encode_num_len(n as int);
    }
    let mut out: Vec<u8> = Vec::new();
    proof {
        assert(out@ =~= Seq::<u8>::empty());
    }
    push_payload(&mut out, &bytes);
    proof {
        assert(Seq::<u8>::empty() + spec_push_bytes(spec_encode_num(n as int)) =~= spec_push_bytes(
            spec_encode_num(n as int),
        ));
    }
    out
}

} // verus!
