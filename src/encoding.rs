//! A model of the canonical (SCALE) encoding of blocks, extrinsics and the
//! dispatchable calls that object mapping looks into.
use parity_scale_codec::{Compact, CompactLen};
use vstd::prelude::*;

verus! {

/// Index of the system pallet in the runtime's call enum.
pub const SYSTEM_PALLET_INDEX: u8 = 0;

/// Index of the utility pallet in the runtime's call enum.
pub const UTILITY_PALLET_INDEX: u8 = 8;

/// Index of `remark` among the system pallet's calls.
pub const REMARK_CALL_INDEX: u8 = 0;

/// Indices of the utility pallet's calls.
pub const BATCH_CALL_INDEX: u8 = 0;

pub const AS_DERIVATIVE_CALL_INDEX: u8 = 1;

pub const BATCH_ALL_CALL_INDEX: u8 = 2;

pub const DISPATCH_AS_CALL_INDEX: u8 = 3;

pub const FORCE_BATCH_CALL_INDEX: u8 = 4;

pub const WITH_WEIGHT_CALL_INDEX: u8 = 5;

/// Version byte of a signed extrinsic (format 4, signed bit set).
pub const SIGNED_EXTRINSIC_VERSION: u8 = 0x84;

/// Version byte of an unsigned extrinsic (format 4).
pub const UNSIGNED_EXTRINSIC_VERSION: u8 = 0x04;

/// A dispatchable call of the runtime, as far as object mapping looks into it.
pub enum RuntimeCall {
    /// `System::remark`: its bytes are an object.
    Remark { remark: Vec<u8> },
    /// A call of the utility pallet, which may wrap further calls.
    Utility(UtilityCall),
    /// Any other call: its pallet's index, then the rest of its encoding.
    Other { pallet_index: u8, call_encoding: Vec<u8> },
}

/// A call of the utility pallet.
pub enum UtilityCall {
    Batch { calls: Vec<RuntimeCall> },
    /// `index` is encoded as a little-endian `u16`.
    AsDerivative { index: u16, call: Box<RuntimeCall> },
    BatchAll { calls: Vec<RuntimeCall> },
    /// `as_origin` holds the origin's encoding.
    DispatchAs { as_origin: Vec<u8>, call: Box<RuntimeCall> },
    ForceBatch { calls: Vec<RuntimeCall> },
    /// `weight` holds the weight's encoding, which follows the call.
    WithWeight { call: Box<RuntimeCall>, weight: Vec<u8> },
}

/// One extrinsic: an optional signature (held as its encoding) and a call.
pub struct Extrinsic {
    pub signature: Option<Vec<u8>>,
    pub function: RuntimeCall,
}

/// A block: its header (held as its encoding) and its extrinsics.
pub struct Block {
    pub header: Vec<u8>,
    pub extrinsics: Vec<Extrinsic>,
}

/// Number of bytes of the compact encoding of `n`.
pub open spec fn compact_len(n: nat) -> nat {
    if n < 0x40 {
        1
    } else if n < 0x4000 {
        2
    } else if n < 0x4000_0000 {
        4
    } else {
        5
    }
}

/// The compact encoding of `n`, for `n` below `2^32`.
pub open spec fn compact_bytes(n: nat) -> Seq<u8> {
    if n < 0x40 {
        seq![(n * 4) as u8]
    } else if n < 0x4000 {
        let v = n * 4 + 1;
        seq![(v % 0x100) as u8, (v / 0x100) as u8]
    } else if n < 0x4000_0000 {
        let v = n * 4 + 2;
        seq![
            (v % 0x100) as u8,
            (v / 0x100 % 0x100) as u8,
            (v / 0x1_0000 % 0x100) as u8,
            (v / 0x100_0000) as u8,
        ]
    } else {
        seq![
            3u8,
            (n % 0x100) as u8,
            (n / 0x100 % 0x100) as u8,
            (n / 0x1_0000 % 0x100) as u8,
            (n / 0x100_0000 % 0x100) as u8,
        ]
    }
}

pub proof fn lemma_compact_bytes_len(n: nat)
    ensures
        compact_bytes(n).len() == compact_len(n),
        1 <= compact_len(n) <= 5,
{
}

/// Little-endian encoding of a `u16`.
pub open spec fn u16_bytes(x: u16) -> Seq<u8> {
    seq![(x % 0x100) as u8, (x / 0x100) as u8]
}

/// The encoding of a call.
pub open spec fn call_bytes(c: RuntimeCall) -> Seq<u8>
    decreases c,
{
    match c {
        RuntimeCall::Remark { remark } => seq![SYSTEM_PALLET_INDEX, REMARK_CALL_INDEX]
            + compact_bytes(remark@.len()) + remark@,
        RuntimeCall::Utility(u) => seq![UTILITY_PALLET_INDEX] + utility_bytes(u),
        RuntimeCall::Other { pallet_index, call_encoding } => seq![pallet_index]
            + call_encoding@,
    }
}

/// The encoding of a utility call, without the pallet index.
pub open spec fn utility_bytes(u: UtilityCall) -> Seq<u8>
    decreases u,
{
    match u {
        UtilityCall::Batch { calls } => seq![BATCH_CALL_INDEX] + compact_bytes(calls@.len())
            + calls_bytes(calls@),
        UtilityCall::AsDerivative { index, call } => seq![AS_DERIVATIVE_CALL_INDEX] + u16_bytes(
            index,
        ) + call_bytes(*call),
        UtilityCall::BatchAll { calls } => seq![BATCH_ALL_CALL_INDEX] + compact_bytes(
            calls@.len(),
        ) + calls_bytes(calls@),
        UtilityCall::DispatchAs { as_origin, call } => seq![DISPATCH_AS_CALL_INDEX]
            + as_origin@ + call_bytes(*call),
        UtilityCall::ForceBatch { calls } => seq![FORCE_BATCH_CALL_INDEX] + compact_bytes(
            calls@.len(),
        ) + calls_bytes(calls@),
        UtilityCall::WithWeight { call, weight } => seq![WITH_WEIGHT_CALL_INDEX] + call_bytes(
            *call,
        ) + weight@,
    }
}

/// The encodings of a sequence of calls, one after another.
pub open spec fn calls_bytes(s: Seq<RuntimeCall>) -> Seq<u8>
    decreases s,
{
    if s.len() == 0 {
        Seq::empty()
    } else {
        calls_bytes(s.drop_last()) + call_bytes(s.last())
    }
}

/// Length of the signature part of an extrinsic's encoding.
pub open spec fn signature_len(signature: Option<Vec<u8>>) -> nat {
    match signature {
        Some(s) => s@.len(),
        None => 0,
    }
}

/// An extrinsic's encoding without its length prefix: the version byte, the
/// signature and the call.
pub open spec fn extrinsic_body(e: Extrinsic) -> Seq<u8> {
    match e.signature {
        Some(s) => seq![SIGNED_EXTRINSIC_VERSION] + s@ + call_bytes(e.function),
        None => seq![UNSIGNED_EXTRINSIC_VERSION] + call_bytes(e.function),
    }
}

/// An extrinsic's encoding: its body, prefixed by the body's length.
pub open spec fn extrinsic_bytes(e: Extrinsic) -> Seq<u8> {
    compact_bytes(extrinsic_body(e).len()) + extrinsic_body(e)
}

/// The encodings of a sequence of extrinsics, one after another.
pub open spec fn extrinsics_bytes(s: Seq<Extrinsic>) -> Seq<u8>
    decreases s.len(),
{
    if s.len() == 0 {
        Seq::empty()
    } else {
        extrinsics_bytes(s.drop_last()) + extrinsic_bytes(s.last())
    }
}

/// A block's encoding: header, number of extrinsics, extrinsics.
pub open spec fn block_bytes(b: Block) -> Seq<u8> {
    b.header@ + compact_bytes(b.extrinsics@.len()) + extrinsics_bytes(b.extrinsics@)
}

pub proof fn lemma_calls_bytes_prefix(s: Seq<RuntimeCall>, i: int)
    requires
        0 <= i < s.len(),
    ensures
        calls_bytes(s.subrange(0, i + 1)) == calls_bytes(s.subrange(0, i)) + call_bytes(s[i]),
        calls_bytes(s.subrange(0, i)).len() + call_bytes(s[i]).len() <= calls_bytes(s).len(),
    decreases s.len(),
{
    let t = s.subrange(0, i + 1);
    assert(t.drop_last() =~= s.subrange(0, i));
    if i + 1 < s.len() {
        lemma_calls_bytes_prefix(s.drop_last(), i);
        assert(s.drop_last().subrange(0, i + 1) =~= t);
        assert(s.drop_last().subrange(0, i) =~= s.subrange(0, i));
    } else {
        assert(t =~= s);
    }
}

pub proof fn lemma_extrinsics_bytes_prefix(s: Seq<Extrinsic>, i: int)
    requires
        0 <= i < s.len(),
    ensures
        extrinsics_bytes(s.subrange(0, i + 1)) == extrinsics_bytes(s.subrange(0, i))
            + extrinsic_bytes(s[i]),
        extrinsics_bytes(s.subrange(0, i)).len() + extrinsic_bytes(s[i]).len()
            <= extrinsics_bytes(s).len(),
    decreases s.len(),
{
    let t = s.subrange(0, i + 1);
    assert(t.drop_last() =~= s.subrange(0, i));
    if i + 1 < s.len() {
        lemma_extrinsics_bytes_prefix(s.drop_last(), i);
        assert(s.drop_last().subrange(0, i + 1) =~= t);
        assert(s.drop_last().subrange(0, i) =~= s.subrange(0, i));
    } else {
        assert(t =~= s);
    }
}

pub proof fn lemma_calls_bytes_len(s: Seq<RuntimeCall>)
    ensures
        calls_bytes(s).len() >= s.len(),
    decreases s.len(),
{
    if s.len() > 0 {
        lemma_calls_bytes_len(s.drop_last());
        assert(call_bytes(s.last()).len() >= 1);
    }
}

pub proof fn lemma_extrinsics_bytes_len(s: Seq<Extrinsic>)
    ensures
        extrinsics_bytes(s).len() >= s.len(),
    decreases s.len(),
{
    if s.len() > 0 {
        lemma_extrinsics_bytes_len(s.drop_last());
        lemma_compact_bytes_len(extrinsic_body(s.last()).len());
    }
}

/// Relies on parity_scale_codec's `CompactLen<u32>` for `Compact<u32>`: the
/// number of bytes that the compact encoding of `n` takes.
#[verifier::external_body]
pub(crate) fn compact_len_u32(n: u32) -> (r: u32)
    ensures
        r == compact_len(n as nat),
{
    <Compact<u32> as CompactLen<u32>>::compact_len(&n) as u32
}

impl RuntimeCall {
    /// Number of bytes of this call's encoding.
    pub fn encoded_size(&self) -> (r: u32)
        requires
            call_bytes(*self).len() <= u32::MAX,
        ensures
            r == call_bytes(*self).len(),
        decreases self,
    {
        match self {
            RuntimeCall::Remark { remark } => {
                proof {
                    lemma_compact_bytes_len(remark@.len());
                }
                2 + compact_len_u32(remark.len() as u32) + remark.len() as u32
            },
            RuntimeCall::Utility(u) => 1 + u.encoded_size(),
            RuntimeCall::Other { pallet_index: _, call_encoding } => 1 + call_encoding.len() as u32,
        }
    }
}

/// Number of bytes of the encodings of `calls`, one after another.
fn calls_encoded_size(calls: &Vec<RuntimeCall>) -> (r: u32)
    requires
        calls_bytes(calls@).len() <= u32::MAX,
    ensures
        r == calls_bytes(calls@).len(),
    decreases calls,
{
    let mut size: u32 = 0;
    let mut i: usize = 0;
    while i < calls.len()
        invariant
            0 <= i <= calls@.len(),
            calls_bytes(calls@).len() <= u32::MAX,
            size == calls_bytes(calls@.subrange(0, i as int)).len(),
        decreases calls@.len() - i,
    {
        proof {
            lemma_calls_bytes_prefix(calls@, i as int);
        }
        size = size + calls[i].encoded_size();
        i = i + 1;
    }
    assert(calls@.subrange(0, calls@.len() as int) =~= calls@);
    size
}

impl UtilityCall {
    /// Number of bytes of this call's encoding, without the pallet index.
    pub fn encoded_size(&self) -> (r: u32)
        requires
            utility_bytes(*self).len() <= u32::MAX,
        ensures
            r == utility_bytes(*self).len(),
        decreases self,
    {
        match self {
            UtilityCall::Batch { calls }
            | UtilityCall::BatchAll { calls }
            | UtilityCall::ForceBatch { calls } => {
                proof {
                    lemma_compact_bytes_len(calls@.len());
                    lemma_calls_bytes_len(calls@);
                }
                1 + compact_len_u32(calls.len() as u32) + calls_encoded_size(calls)
            },
            UtilityCall::AsDerivative { index: _, call } => 3 + call.encoded_size(),
            UtilityCall::DispatchAs { as_origin, call } => 1 + as_origin.len() as u32
                + call.encoded_size(),
            UtilityCall::WithWeight { call, weight } => 1 + call.encoded_size()
                + weight.len() as u32,
        }
    }
}

impl Extrinsic {
    /// Number of bytes of this extrinsic's signature encoding, zero if unsigned.
    pub fn signature_size(&self) -> (r: u32)
        requires
            signature_len(self.signature) <= u32::MAX,
        ensures
            r == signature_len(self.signature),
    {
        match &self.signature {
            Some(s) => s.len() as u32,
            None => 0,
        }
    }

    /// Number of bytes of this extrinsic's encoding.
    pub fn encoded_size(&self) -> (r: u32)
        requires
            extrinsic_bytes(*self).len() <= u32::MAX,
        ensures
            r == extrinsic_bytes(*self).len(),
    {
        proof {
            lemma_compact_bytes_len(extrinsic_body(*self).len());
        }
        let body = 1 + self.signature_size() + self.function.encoded_size();
        compact_len_u32(body) + body
    }
}

} // verus!
