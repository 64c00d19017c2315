//! Locating the objects of a block (the bytes of its remarks) inside the
//! block's own encoding, without encoding the block.
use crate::encoding::{
    Block, Extrinsic, RuntimeCall, UtilityCall, block_bytes, call_bytes, calls_bytes,
    compact_len, compact_len_u32, extrinsic_body, extrinsic_bytes, extrinsics_bytes,
    lemma_calls_bytes_prefix, lemma_compact_bytes_len, lemma_extrinsics_bytes_prefix,
    signature_len, utility_bytes,
};
use vstd::prelude::*;

verus! {

/// How many utility wrappers deep object mapping looks into a call.
pub const MAX_OBJECT_MAPPING_RECURSION_DEPTH: u16 = 5;

/// A 32-byte content hash.
pub type Hash = [u8; 32];

/// One object of a block: the hash of its bytes and where they start in the
/// block's encoding.
pub struct BlockObject {
    pub hash: Hash,
    pub offset: u32,
}

/// The objects of one block, in the order of the block's encoding.
pub struct BlockObjectMapping {
    pub objects: Vec<BlockObject>,
}

/// The BLAKE3 digest of `data`.
pub uninterp spec fn blake3_of(data: Seq<u8>) -> Seq<u8>;

/// Relies on blake3::hash: the 32-byte BLAKE3 digest of `data`, which depends
/// on `data` alone.
#[verifier::external_body]
fn blake3_hash(data: &Vec<u8>) -> (r: Hash)
    ensures
        r@ == blake3_of(data@),
{
    blake3::hash(data.as_slice()).into()
}

/// The objects of call `c` whose encoding starts at `offset`, looking through
/// at most `depth` utility wrappers: each is the object's bytes and the offset
/// of its first byte.
pub open spec fn call_objects(c: RuntimeCall, offset: int, depth: nat) -> Seq<(Seq<u8>, int)>
    decreases c,
{
    match c {
        RuntimeCall::Remark { remark } => seq![
            (remark@, offset + 2 + compact_len(remark@.len())),
        ],
        RuntimeCall::Utility(u) => utility_objects(u, offset + 1, depth),
        RuntimeCall::Other { .. } => Seq::empty(),
    }
}

/// The objects of utility call `u` whose encoding (after the pallet index)
/// starts at `offset`.
pub open spec fn utility_objects(u: UtilityCall, offset: int, depth: nat) -> Seq<(Seq<u8>, int)>
    decreases u,
{
    if depth == 0 {
        Seq::empty()
    } else {
        let d = (depth - 1) as nat;
        let start = offset + 1;
        match u {
            UtilityCall::Batch { calls } => calls_objects(
                calls@,
                start + compact_len(calls@.len()),
                d,
            ),
            UtilityCall::BatchAll { calls } => calls_objects(
                calls@,
                start + compact_len(calls@.len()),
                d,
            ),
            UtilityCall::ForceBatch { calls } => calls_objects(
                calls@,
                start + compact_len(calls@.len()),
                d,
            ),
            UtilityCall::AsDerivative { index: _, call } => call_objects(*call, start + 2, d),
            UtilityCall::DispatchAs { as_origin, call } => call_objects(
                *call,
                start + as_origin@.len(),
                d,
            ),
            UtilityCall::WithWeight { call, weight: _ } => call_objects(*call, start, d),
        }
    }
}

/// The objects of calls encoded one after another from `offset`.
pub open spec fn calls_objects(s: Seq<RuntimeCall>, offset: int, depth: nat) -> Seq<
    (Seq<u8>, int),
>
    decreases s,
{
    if s.len() == 0 {
        Seq::empty()
    } else {
        calls_objects(s.drop_last(), offset, depth) + call_objects(
            s.last(),
            offset + calls_bytes(s.drop_last()).len(),
            depth,
        )
    }
}

/// Where the call of extrinsic `e` starts, if `e` starts at `offset`.
pub open spec fn extrinsic_call_offset(e: Extrinsic, offset: int) -> int {
    offset + compact_len(extrinsic_body(e).len()) + 1 + signature_len(e.signature)
}

/// The objects of extrinsics encoded one after another from `offset`.
pub open spec fn extrinsics_objects(s: Seq<Extrinsic>, offset: int) -> Seq<(Seq<u8>, int)>
    decreases s.len(),
{
    if s.len() == 0 {
        Seq::empty()
    } else {
        extrinsics_objects(s.drop_last(), offset) + call_objects(
            s.last().function,
            extrinsic_call_offset(s.last(), offset + extrinsics_bytes(s.drop_last()).len()),
            MAX_OBJECT_MAPPING_RECURSION_DEPTH as nat,
        )
    }
}

/// Where the first extrinsic of `b` starts.
pub open spec fn first_extrinsic_offset(b: Block) -> int {
    (b.header@.len() + compact_len(b.extrinsics@.len())) as int
}

/// The objects of block `b`: bytes and offset of each.
pub open spec fn block_objects(b: Block) -> Seq<(Seq<u8>, int)> {
    extrinsics_objects(b.extrinsics@, first_extrinsic_offset(b))
}

/// Objects with their bytes replaced by the bytes' hash.
pub open spec fn hashed(objs: Seq<(Seq<u8>, int)>) -> Seq<(Seq<u8>, int)> {
    objs.map_values(|e: (Seq<u8>, int)| (blake3_of(e.0), e.1))
}

/// Hash and offset of each object.
pub open spec fn objects_view(v: Seq<BlockObject>) -> Seq<(Seq<u8>, int)> {
    v.map_values(|o: BlockObject| (o.hash@, o.offset as int))
}

impl BlockObjectMapping {
    pub open spec fn view(&self) -> Seq<(Seq<u8>, int)> {
        objects_view(self.objects@)
    }
}

proof fn lemma_hashed_concat(a: Seq<(Seq<u8>, int)>, b: Seq<(Seq<u8>, int)>)
    ensures
        hashed(a + b) == hashed(a) + hashed(b),
{
    assert(hashed(a + b) =~= hashed(a) + hashed(b));
}

proof fn lemma_calls_objects_prefix(s: Seq<RuntimeCall>, i: int, offset: int, depth: nat)
    requires
        0 <= i < s.len(),
    ensures
        calls_objects(s.subrange(0, i + 1), offset, depth) == calls_objects(
            s.subrange(0, i),
            offset,
            depth,
        ) + call_objects(s[i], offset + calls_bytes(s.subrange(0, i)).len(), depth),
{
    assert(s.subrange(0, i + 1).drop_last() =~= s.subrange(0, i));
}

proof fn lemma_extrinsics_objects_prefix(s: Seq<Extrinsic>, i: int, offset: int)
    requires
        0 <= i < s.len(),
    ensures
        extrinsics_objects(s.subrange(0, i + 1), offset) == extrinsics_objects(
            s.subrange(0, i),
            offset,
        ) + call_objects(
            s[i].function,
            extrinsic_call_offset(s[i], offset + extrinsics_bytes(s.subrange(0, i)).len()),
            MAX_OBJECT_MAPPING_RECURSION_DEPTH as nat,
        ),
{
    assert(s.subrange(0, i + 1).drop_last() =~= s.subrange(0, i));
}

/// Appends to `objects` the objects of utility call `call`, whose encoding
/// (after the pallet index) starts at `base_offset`, looking through at most
/// `recursion_depth_left` wrappers.
pub fn extract_utility_block_object_mapping(
    base_offset: u32,
    objects: &mut Vec<BlockObject>,
    call: &UtilityCall,
    recursion_depth_left: u16,
    successful_calls: &Vec<Hash>,
)
    requires
        base_offset + utility_bytes(*call).len() <= u32::MAX,
    ensures
        objects_view(final(objects)@) == objects_view(old(objects)@) + hashed(
            utility_objects(*call, base_offset as int, recursion_depth_left as nat),
        ),
    decreases call,
{
    if recursion_depth_left == 0 {
        assert(hashed(Seq::empty()) =~= Seq::empty());
        assert(objects_view(objects@) =~= objects_view(old(objects)@) + Seq::empty());
        return ;
    }
    let recursion_depth_left = recursion_depth_left - 1;
    // The call's index within the pallet.
    let base_offset = base_offset + 1;

    match call {
        UtilityCall::Batch { calls }
        | UtilityCall::BatchAll { calls }
        | UtilityCall::ForceBatch { calls } => {
            proof {
                lemma_compact_bytes_len(calls@.len());
                crate::encoding::lemma_calls_bytes_len(calls@);
            }
            // The number of calls comes before them.
            extract_calls_block_object_mapping(
                base_offset + compact_len_u32(calls.len() as u32),
                objects,
                calls,
                recursion_depth_left,
                successful_calls,
            );
        },
        UtilityCall::AsDerivative { index: _, call } => {
            // The derivative index, a `u16`.
            extract_call_block_object_mapping(
                base_offset + 2,
                objects,
                call,
                recursion_depth_left,
                successful_calls,
            );
        },
        UtilityCall::DispatchAs { as_origin, call } => {
            extract_call_block_object_mapping(
                base_offset + as_origin.len() as u32,
                objects,
                call,
                recursion_depth_left,
                successful_calls,
            );
        },
        UtilityCall::WithWeight { call, weight: _ } => {
            // The weight follows the call.
            extract_call_block_object_mapping(
                base_offset,
                objects,
                call,
                recursion_depth_left,
                successful_calls,
            );
        },
    }
}

/// Appends to `objects` the objects of `calls`, encoded one after another from
/// `base_offset`.
fn extract_calls_block_object_mapping(
    base_offset: u32,
    objects: &mut Vec<BlockObject>,
    calls: &Vec<RuntimeCall>,
    recursion_depth_left: u16,
    successful_calls: &Vec<Hash>,
)
    requires
        base_offset + calls_bytes(calls@).len() <= u32::MAX,
    ensures
        objects_view(final(objects)@) == objects_view(old(objects)@) + hashed(
            calls_objects(calls@, base_offset as int, recursion_depth_left as nat),
        ),
    decreases calls,
{
    let mut offset = base_offset;
    let mut i: usize = 0;
    assert(calls@.subrange(0, 0) =~= Seq::<RuntimeCall>::empty());
    assert(objects_view(objects@) =~= objects_view(old(objects)@) + hashed(Seq::empty()));
    while i < calls.len()
        invariant
            0 <= i <= calls@.len(),
            base_offset + calls_bytes(calls@).len() <= u32::MAX,
            offset == base_offset + calls_bytes(calls@.subrange(0, i as int)).len(),
            objects_view(objects@) == objects_view(old(objects)@) + hashed(
                calls_objects(
                    calls@.subrange(0, i as int),
                    base_offset as int,
                    recursion_depth_left as nat,
                ),
            ),
        decreases calls@.len() - i,
    {
        proof {
            lemma_calls_bytes_prefix(calls@, i as int);
            lemma_calls_objects_prefix(
                calls@,
                i as int,
                base_offset as int,
                recursion_depth_left as nat,
            );
            lemma_hashed_concat(
                calls_objects(
                    calls@.subrange(0, i as int),
                    base_offset as int,
                    recursion_depth_left as nat,
                ),
                call_objects(calls@[i as int], offset as int, recursion_depth_left as nat),
            );
        }
        extract_call_block_object_mapping(
            offset,
            objects,
            &calls[i],
            recursion_depth_left,
            successful_calls,
        );
        offset = offset + calls[i].encoded_size();
        i = i + 1;
    }
    assert(calls@.subrange(0, calls@.len() as int) =~= calls@);
}

/// Appends to `objects` the objects of `call`, whose encoding starts at
/// `base_offset`, looking through at most `recursion_depth_left` wrappers.
pub fn extract_call_block_object_mapping(
    base_offset: u32,
    objects: &mut Vec<BlockObject>,
    call: &RuntimeCall,
    recursion_depth_left: u16,
    successful_calls: &Vec<Hash>,
)
    requires
        base_offset + call_bytes(*call).len() <= u32::MAX,
    ensures
        objects_view(final(objects)@) == objects_view(old(objects)@) + hashed(
            call_objects(*call, base_offset as int, recursion_depth_left as nat),
        ),
    decreases call,
{
    // The pallet's index.
    let base_offset = base_offset + 1;

    match call {
        RuntimeCall::Remark { remark } => {
            proof {
                lemma_compact_bytes_len(remark@.len());
            }
            // The call's index within the pallet, then the remark's length.
            let offset = base_offset + 1 + compact_len_u32(remark.len() as u32);
            let object = BlockObject { hash: blake3_hash(remark), offset };
            objects.push(object);
            assert(objects_view(objects@) =~= objects_view(old(objects)@) + hashed(
                call_objects(*call, base_offset - 1, recursion_depth_left as nat),
            ));
        },
        RuntimeCall::Utility(call) => {
            extract_utility_block_object_mapping(
                base_offset,
                objects,
                call,
                recursion_depth_left,
                successful_calls,
            );
        },
        RuntimeCall::Other { .. } => {
            assert(hashed(Seq::empty()) =~= Seq::empty());
            assert(objects_view(objects@) =~= objects_view(old(objects)@) + Seq::empty());
        },
    }
}

/// The objects of `block`, in the order of its encoding. `successful_calls`
/// lists the hashes of the calls that executed successfully; it does not
/// change the result.
pub fn extract_block_object_mapping(block: Block, successful_calls: Vec<Hash>) -> (r:
    BlockObjectMapping)
    requires
        block_bytes(block).len() <= u32::MAX,
    ensures
        r@ == hashed(block_objects(block)),
{
    let mut objects: Vec<BlockObject> = Vec::new();
    proof {
        lemma_compact_bytes_len(block.extrinsics@.len());
        crate::encoding::lemma_extrinsics_bytes_len(block.extrinsics@);
    }
    let start = block.header.len() as u32 + compact_len_u32(block.extrinsics.len() as u32);
    let mut base_offset = start;
    let mut i: usize = 0;
    assert(block.extrinsics@.subrange(0, 0) =~= Seq::<Extrinsic>::empty());
    assert(objects_view(objects@) =~= hashed(Seq::empty()));
    while i < block.extrinsics.len()
        invariant
            0 <= i <= block.extrinsics@.len(),
            block_bytes(block).len() <= u32::MAX,
            start == first_extrinsic_offset(block),
            base_offset == start + extrinsics_bytes(block.extrinsics@.subrange(0, i as int)).len(),
            objects_view(objects@) == hashed(
                extrinsics_objects(block.extrinsics@.subrange(0, i as int), start as int),
            ),
        decreases block.extrinsics@.len() - i,
    {
        let extrinsic = &block.extrinsics[i];
        proof {
            lemma_extrinsics_bytes_prefix(block.extrinsics@, i as int);
            lemma_extrinsics_objects_prefix(block.extrinsics@, i as int, start as int);
            lemma_compact_bytes_len(extrinsic_body(*extrinsic).len());
            lemma_hashed_concat(
                extrinsics_objects(block.extrinsics@.subrange(0, i as int), start as int),
                call_objects(
                    extrinsic.function,
                    extrinsic_call_offset(*extrinsic, base_offset as int),
                    MAX_OBJECT_MAPPING_RECURSION_DEPTH as nat,
                ),
            );
        }
        let signature_size = extrinsic.signature_size();
        // The extrinsic's length, its version byte and its signature come
        // before its call.
        let base_extrinsic_offset = base_offset + compact_len_u32(
            1 + signature_size + extrinsic.function.encoded_size(),
        ) + 1 + signature_size;
        extract_call_block_object_mapping(
            base_extrinsic_offset,
            &mut objects,
            &extrinsic.function,
            MAX_OBJECT_MAPPING_RECURSION_DEPTH,
            &successful_calls,
        );
        base_offset = base_offset + extrinsic.encoded_size();
        i = i + 1;
    }
    assert(block.extrinsics@.subrange(0, block.extrinsics@.len() as int) =~= block.extrinsics@);
    BlockObjectMapping { objects }
}

} // verus!
