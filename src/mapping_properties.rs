//! What holds of the objects that mapping finds in a block.
use crate::encoding::{
    Block, Extrinsic, RuntimeCall, UtilityCall, block_bytes, call_bytes, calls_bytes,
    compact_bytes, compact_len, extrinsic_body, extrinsic_bytes, extrinsics_bytes,
    lemma_compact_bytes_len, signature_len, u16_bytes, utility_bytes, BATCH_ALL_CALL_INDEX,
    BATCH_CALL_INDEX, FORCE_BATCH_CALL_INDEX, AS_DERIVATIVE_CALL_INDEX, DISPATCH_AS_CALL_INDEX,
    WITH_WEIGHT_CALL_INDEX, UTILITY_PALLET_INDEX, SIGNED_EXTRINSIC_VERSION,
    UNSIGNED_EXTRINSIC_VERSION,
};
use crate::object_mapping::{
    block_objects, call_objects, calls_objects, extrinsic_call_offset, extrinsics_objects,
    first_extrinsic_offset, utility_objects, MAX_OBJECT_MAPPING_RECURSION_DEPTH,
};
use vstd::prelude::*;

verus! {

/// Each object `(bytes, offset)` of `objs` lies inside `enc`, an encoding that
/// starts at `base`, after `base`, and `enc` holds exactly its bytes there.
pub open spec fn found_in(enc: Seq<u8>, objs: Seq<(Seq<u8>, int)>, base: int) -> bool {
    forall|i: int|
        0 <= i < objs.len() ==> {
            &&& base < #[trigger] objs[i].1
            &&& objs[i].1 + objs[i].0.len() <= base + enc.len()
            &&& enc.subrange(objs[i].1 - base, objs[i].1 - base + objs[i].0.len()) == objs[i].0
        }
}

/// The offsets of `objs` strictly increase.
pub open spec fn offsets_increasing(objs: Seq<(Seq<u8>, int)>) -> bool {
    forall|i: int, j: int| 0 <= i < j < objs.len() ==> #[trigger] objs[i].1 < #[trigger] objs[j].1
}

proof fn lemma_embed(p: Seq<u8>, x: Seq<u8>, q: Seq<u8>, objs: Seq<(Seq<u8>, int)>, base: int)
    requires
        found_in(x, objs, base),
    ensures
        found_in(p + x + q, objs, base - p.len()),
{
    let w = p + x + q;
    assert forall|i: int| 0 <= i < objs.len() implies {
        &&& base - p.len() < #[trigger] objs[i].1
        &&& objs[i].1 + objs[i].0.len() <= base - p.len() + w.len()
        &&& w.subrange(objs[i].1 - (base - p.len()), objs[i].1 - (base - p.len()) + objs[i].0.len())
            == objs[i].0
    } by {
        let s = objs[i].1 - base;
        assert(w.subrange(s + p.len(), s + p.len() + objs[i].0.len()) =~= x.subrange(
            s,
            s + objs[i].0.len(),
        ));
    }
}

proof fn lemma_concat(
    a: Seq<u8>,
    oa: Seq<(Seq<u8>, int)>,
    b: Seq<u8>,
    ob: Seq<(Seq<u8>, int)>,
    base: int,
)
    requires
        found_in(a, oa, base),
        found_in(b, ob, base + a.len()),
        offsets_increasing(oa),
        offsets_increasing(ob),
    ensures
        found_in(a + b, oa + ob, base),
        offsets_increasing(oa + ob),
{
    lemma_embed(Seq::empty(), a, b, oa, base);
    lemma_embed(a, b, Seq::empty(), ob, base + a.len());
    assert(Seq::<u8>::empty() + a + b =~= a + b);
    assert(a + b + Seq::<u8>::empty() =~= a + b);
    let o = oa + ob;
    assert forall|i: int| 0 <= i < o.len() implies {
        &&& base < #[trigger] o[i].1
        &&& o[i].1 + o[i].0.len() <= base + (a + b).len()
        &&& (a + b).subrange(o[i].1 - base, o[i].1 - base + o[i].0.len()) == o[i].0
    } by {
        if i < oa.len() {
            assert(o[i] == oa[i]);
        } else {
            assert(o[i] == ob[i - oa.len()]);
        }
    }
    assert forall|i: int, j: int| 0 <= i < j < o.len() implies #[trigger] o[i].1 < #[trigger] o[j].1 by {
        if j < oa.len() {
            assert(o[i] == oa[i] && o[j] == oa[j]);
        } else if i >= oa.len() {
            assert(o[i] == ob[i - oa.len()] && o[j] == ob[j - oa.len()]);
        } else {
            assert(o[i] == oa[i] && o[j] == ob[j - oa.len()]);
        }
    }
}

proof fn lemma_call_objects_found(c: RuntimeCall, offset: int, depth: nat)
    ensures
        found_in(call_bytes(c), call_objects(c, offset, depth), offset),
        offsets_increasing(call_objects(c, offset, depth)),
    decreases c,
{
    match c {
        RuntimeCall::Remark { remark } => {
            lemma_compact_bytes_len(remark@.len());
            let cl = compact_len(remark@.len()) as int;
            let objs = call_objects(c, offset, depth);
            assert(objs[0] == (remark@, offset + 2 + cl));
            assert(call_bytes(c).subrange(2 + cl, 2 + cl + remark@.len()) =~= remark@);
        },
        RuntimeCall::Utility(u) => {
            lemma_utility_objects_found(u, offset + 1, depth);
            lemma_embed(
                seq![UTILITY_PALLET_INDEX],
                utility_bytes(u),
                Seq::empty(),
                utility_objects(u, offset + 1, depth),
                offset + 1,
            );
            assert(seq![UTILITY_PALLET_INDEX] + utility_bytes(u) + Seq::empty() =~= call_bytes(c));
        },
        RuntimeCall::Other { .. } => {},
    }
}

proof fn lemma_batch_found(tag: u8, calls: Seq<RuntimeCall>, offset: int, depth: nat)
    requires
        found_in(
            calls_bytes(calls),
            calls_objects(calls, offset + 1 + compact_len(calls.len()), depth),
            offset + 1 + compact_len(calls.len()),
        ),
        offsets_increasing(calls_objects(calls, offset + 1 + compact_len(calls.len()), depth)),
    ensures
        found_in(
            seq![tag] + compact_bytes(calls.len()) + calls_bytes(calls),
            calls_objects(calls, offset + 1 + compact_len(calls.len()), depth),
            offset,
        ),
        offsets_increasing(calls_objects(calls, offset + 1 + compact_len(calls.len()), depth)),
{
    lemma_compact_bytes_len(calls.len());
    let start = offset + 1 + compact_len(calls.len());
    lemma_embed(
        seq![tag] + compact_bytes(calls.len()),
        calls_bytes(calls),
        Seq::empty(),
        calls_objects(calls, start, depth),
        start,
    );
    assert(seq![tag] + compact_bytes(calls.len()) + calls_bytes(calls) + Seq::empty()
        =~= seq![tag] + compact_bytes(calls.len()) + calls_bytes(calls));
}

proof fn lemma_utility_objects_found(u: UtilityCall, offset: int, depth: nat)
    ensures
        found_in(utility_bytes(u), utility_objects(u, offset, depth), offset),
        offsets_increasing(utility_objects(u, offset, depth)),
    decreases u,
{
    if depth > 0 {
        let d = (depth - 1) as nat;
        match u {
            UtilityCall::Batch { calls } => {
                lemma_calls_objects_found(calls@, offset + 1 + compact_len(calls@.len()), d);
                lemma_batch_found(BATCH_CALL_INDEX, calls@, offset, d);
            },
            UtilityCall::BatchAll { calls } => {
                lemma_calls_objects_found(calls@, offset + 1 + compact_len(calls@.len()), d);
                lemma_batch_found(BATCH_ALL_CALL_INDEX, calls@, offset, d);
            },
            UtilityCall::ForceBatch { calls } => {
                lemma_calls_objects_found(calls@, offset + 1 + compact_len(calls@.len()), d);
                lemma_batch_found(FORCE_BATCH_CALL_INDEX, calls@, offset, d);
            },
            UtilityCall::AsDerivative { index, call } => {
                lemma_call_objects_found(*call, offset + 3, d);
                lemma_embed(
                    seq![AS_DERIVATIVE_CALL_INDEX] + u16_bytes(index),
                    call_bytes(*call),
                    Seq::empty(),
                    call_objects(*call, offset + 3, d),
                    offset + 3,
                );
                assert(seq![AS_DERIVATIVE_CALL_INDEX] + u16_bytes(index) + call_bytes(*call)
                    + Seq::empty() =~= utility_bytes(u));
            },
            UtilityCall::DispatchAs { as_origin, call } => {
                let start = offset + 1 + as_origin@.len();
                lemma_call_objects_found(*call, start, d);
                lemma_embed(
                    seq![DISPATCH_AS_CALL_INDEX] + as_origin@,
                    call_bytes(*call),
                    Seq::empty(),
                    call_objects(*call, start, d),
                    start,
                );
                assert(seq![DISPATCH_AS_CALL_INDEX] + as_origin@ + call_bytes(*call)
                    + Seq::empty() =~= utility_bytes(u));
            },
            UtilityCall::WithWeight { call, weight } => {
                lemma_call_objects_found(*call, offset + 1, d);
                lemma_embed(
                    seq![WITH_WEIGHT_CALL_INDEX],
                    call_bytes(*call),
                    weight@,
                    call_objects(*call, offset + 1, d),
                    offset + 1,
                );
            },
        }
    }
}

proof fn lemma_calls_objects_found(s: Seq<RuntimeCall>, offset: int, depth: nat)
    ensures
        found_in(calls_bytes(s), calls_objects(s, offset, depth), offset),
        offsets_increasing(calls_objects(s, offset, depth)),
    decreases s,
{
    if s.len() > 0 {
        let init = s.drop_last();
        lemma_calls_objects_found(init, offset, depth);
        lemma_call_objects_found(s.last(), offset + calls_bytes(init).len(), depth);
        lemma_concat(
            calls_bytes(init),
            calls_objects(init, offset, depth),
            call_bytes(s.last()),
            call_objects(s.last(), offset + calls_bytes(init).len(), depth),
            offset,
        );
    }
}

proof fn lemma_extrinsic_objects_found(e: Extrinsic, offset: int)
    ensures
        found_in(
            extrinsic_bytes(e),
            call_objects(
                e.function,
                extrinsic_call_offset(e, offset),
                MAX_OBJECT_MAPPING_RECURSION_DEPTH as nat,
            ),
            offset,
        ),
        offsets_increasing(
            call_objects(
                e.function,
                extrinsic_call_offset(e, offset),
                MAX_OBJECT_MAPPING_RECURSION_DEPTH as nat,
            ),
        ),
{
    let depth = MAX_OBJECT_MAPPING_RECURSION_DEPTH as nat;
    let start = extrinsic_call_offset(e, offset);
    let len_prefix = compact_bytes(extrinsic_body(e).len());
    lemma_compact_bytes_len(extrinsic_body(e).len());
    lemma_call_objects_found(e.function, start, depth);
    let before = match e.signature {
        Some(s) => len_prefix + seq![SIGNED_EXTRINSIC_VERSION] + s@,
        None => len_prefix + seq![UNSIGNED_EXTRINSIC_VERSION],
    };
    assert(before.len() == compact_len(extrinsic_body(e).len()) + 1 + signature_len(e.signature));
    lemma_embed(
        before,
        call_bytes(e.function),
        Seq::empty(),
        call_objects(e.function, start, depth),
        start,
    );
    assert(before + call_bytes(e.function) + Seq::empty() =~= extrinsic_bytes(e));
}

proof fn lemma_extrinsics_objects_found(s: Seq<Extrinsic>, offset: int)
    ensures
        found_in(extrinsics_bytes(s), extrinsics_objects(s, offset), offset),
        offsets_increasing(extrinsics_objects(s, offset)),
    decreases s.len(),
{
    if s.len() > 0 {
        let init = s.drop_last();
        let next = offset + extrinsics_bytes(init).len();
        lemma_extrinsics_objects_found(init, offset);
        lemma_extrinsic_objects_found(s.last(), next);
        lemma_concat(
            extrinsics_bytes(init),
            extrinsics_objects(init, offset),
            extrinsic_bytes(s.last()),
            call_objects(
                s.last().function,
                extrinsic_call_offset(s.last(), next),
                MAX_OBJECT_MAPPING_RECURSION_DEPTH as nat,
            ),
            offset,
        );
    }
}

/// Every object found in a block lies in the block's own encoding: the bytes
/// from its offset on are exactly the object's bytes. The objects come in the
/// order of the encoding, their offsets strictly increasing.
pub proof fn lemma_block_objects_located(b: Block)
    ensures
        forall|i: int|
            0 <= i < block_objects(b).len() ==> {
                let o = #[trigger] block_objects(b)[i];
                &&& 0 <= o.1
                &&& o.1 + o.0.len() <= block_bytes(b).len()
                &&& block_bytes(b).subrange(o.1, o.1 + o.0.len()) == o.0
            },
        offsets_increasing(block_objects(b)),
{
    lemma_compact_bytes_len(b.extrinsics@.len());
    let start = first_extrinsic_offset(b);
    lemma_extrinsics_objects_found(b.extrinsics@, start);
    lemma_embed(
        b.header@ + compact_bytes(b.extrinsics@.len()),
        extrinsics_bytes(b.extrinsics@),
        Seq::empty(),
        block_objects(b),
        start,
    );
    assert(b.header@ + compact_bytes(b.extrinsics@.len()) + extrinsics_bytes(b.extrinsics@)
        + Seq::empty() =~= block_bytes(b));
    assert forall|i: int| 0 <= i < block_objects(b).len() implies {
        let o = #[trigger] block_objects(b)[i];
        &&& 0 <= o.1
        &&& o.1 + o.0.len() <= block_bytes(b).len()
        &&& block_bytes(b).subrange(o.1, o.1 + o.0.len()) == o.0
    } by {
        let o = block_objects(b)[i];
        assert(0 < o.1);
    }
}

/// The bytes of a remark call; empty for any other call.
pub open spec fn remark_of(c: RuntimeCall) -> Seq<u8> {
    match c {
        RuntimeCall::Remark { remark } => remark@,
        _ => Seq::empty(),
    }
}

/// The calls of `c`, if it is a batch (of any of the three kinds).
pub open spec fn batch_calls(c: RuntimeCall) -> Option<Seq<RuntimeCall>> {
    match c {
        RuntimeCall::Utility(UtilityCall::Batch { calls }) => Some(calls@),
        RuntimeCall::Utility(UtilityCall::BatchAll { calls }) => Some(calls@),
        RuntimeCall::Utility(UtilityCall::ForceBatch { calls }) => Some(calls@),
        _ => None,
    }
}

/// `c` is `inner` inside `k` batches of one call each.
pub open spec fn nested_in_batches(c: RuntimeCall, inner: RuntimeCall, k: nat) -> bool
    decreases k,
{
    if k == 0 {
        c == inner
    } else {
        match c {
            RuntimeCall::Utility(UtilityCall::Batch { calls }) => calls@.len() == 1
                && nested_in_batches(calls@[0], inner, (k - 1) as nat),
            _ => false,
        }
    }
}

proof fn lemma_single_extrinsic(b: Block)
    requires
        b.extrinsics@.len() == 1,
    ensures
        block_objects(b) == call_objects(
            b.extrinsics@[0].function,
            extrinsic_call_offset(b.extrinsics@[0], first_extrinsic_offset(b)),
            MAX_OBJECT_MAPPING_RECURSION_DEPTH as nat,
        ),
{
    let s = b.extrinsics@;
    let init = s.drop_last();
    assert(init.len() == 0);
    assert(s.last() == s[0]);
    assert(extrinsics_bytes(init).len() == 0);
    assert(extrinsics_objects(init, first_extrinsic_offset(b)) == Seq::<(Seq<u8>, int)>::empty());
    let x = call_objects(
        s[0].function,
        extrinsic_call_offset(s[0], first_extrinsic_offset(b)),
        MAX_OBJECT_MAPPING_RECURSION_DEPTH as nat,
    );
    assert(Seq::<(Seq<u8>, int)>::empty() + x =~= x);
}

proof fn lemma_single_call(s: Seq<RuntimeCall>, offset: int, depth: nat)
    requires
        s.len() == 1,
    ensures
        calls_objects(s, offset, depth) == call_objects(s[0], offset, depth),
{
    let init = s.drop_last();
    assert(init.len() == 0);
    assert(s.last() == s[0]);
    assert(calls_bytes(init).len() == 0);
    assert(calls_objects(init, offset, depth) == Seq::<(Seq<u8>, int)>::empty());
    let x = call_objects(s[0], offset, depth);
    assert(Seq::<(Seq<u8>, int)>::empty() + x =~= x);
}

proof fn lemma_batch_objects(c: RuntimeCall, offset: int, depth: nat)
    requires
        batch_calls(c) is Some,
        depth > 0,
    ensures
        call_objects(c, offset, depth) == calls_objects(
            batch_calls(c)->0,
            offset + 2 + compact_len(batch_calls(c)->0.len()),
            (depth - 1) as nat,
        ),
{
    match c {
        RuntimeCall::Utility(u) => {
            assert(call_objects(c, offset, depth) == utility_objects(u, offset + 1, depth));
        },
        _ => {},
    }
}

proof fn lemma_remarks_objects(s: Seq<RuntimeCall>, offset: int, depth: nat)
    requires
        forall|i: int| 0 <= i < s.len() ==> #[trigger] s[i] is Remark,
    ensures
        calls_objects(s, offset, depth).len() == s.len(),
        forall|i: int|
            0 <= i < s.len() ==> #[trigger] calls_objects(s, offset, depth)[i].0 == remark_of(s[i]),
    decreases s.len(),
{
    if s.len() > 0 {
        let init = s.drop_last();
        assert forall|i: int| 0 <= i < init.len() implies #[trigger] init[i] is Remark by {
            assert(init[i] == s[i]);
        }
        lemma_remarks_objects(init, offset, depth);
        assert(s.last() is Remark);
        let last = call_objects(s.last(), offset + calls_bytes(init).len(), depth);
        assert(last.len() == 1 && last[0].0 == remark_of(s.last()));
        let o = calls_objects(s, offset, depth);
        assert(o == calls_objects(init, offset, depth) + last);
        assert forall|i: int| 0 <= i < s.len() implies #[trigger] o[i].0 == remark_of(s[i]) by {
            if i < init.len() {
                assert(o[i] == calls_objects(init, offset, depth)[i]);
                assert(init[i] == s[i]);
            }
        }
    }
}

/// In a block whose only extrinsic is a batch of remarks, the objects are the
/// remarks' bytes, one for each remark, in the batch's order, each found in
/// the block's encoding at its offset, the offsets strictly increasing.
pub proof fn lemma_batch_of_remarks(b: Block)
    requires
        b.extrinsics@.len() == 1,
        batch_calls(b.extrinsics@[0].function) is Some,
        forall|i: int|
            0 <= i < batch_calls(b.extrinsics@[0].function)->0.len() ==> #[trigger] batch_calls(
                b.extrinsics@[0].function,
            )->0[i] is Remark,
    ensures
        block_objects(b).len() == batch_calls(b.extrinsics@[0].function)->0.len(),
        forall|i: int|
            0 <= i < block_objects(b).len() ==> #[trigger] block_objects(b)[i].0 == remark_of(
                batch_calls(b.extrinsics@[0].function)->0[i],
            ),
        forall|i: int|
            0 <= i < block_objects(b).len() ==> {
                let o = #[trigger] block_objects(b)[i];
                block_bytes(b).subrange(o.1, o.1 + o.0.len()) == o.0
            },
        offsets_increasing(block_objects(b)),
{
    lemma_block_objects_located(b);
    let e = b.extrinsics@[0];
    let calls = batch_calls(e.function)->0;
    let start = extrinsic_call_offset(e, first_extrinsic_offset(b));
    let inner_start = start + 2 + compact_len(calls.len());
    lemma_single_extrinsic(b);
    lemma_batch_objects(e.function, start, MAX_OBJECT_MAPPING_RECURSION_DEPTH as nat);
    lemma_remarks_objects(calls, inner_start, (MAX_OBJECT_MAPPING_RECURSION_DEPTH - 1) as nat);
}

proof fn lemma_nested_objects(c: RuntimeCall, remark: RuntimeCall, k: nat, offset: int, depth: nat)
    requires
        remark is Remark,
        nested_in_batches(c, remark, k),
    ensures
        call_objects(c, offset, depth).len() == if k <= depth {
            1int
        } else {
            0int
        },
        k <= depth ==> call_objects(c, offset, depth)[0].0 == remark_of(remark),
    decreases k,
{
    if k > 0 {
        match c {
            RuntimeCall::Utility(UtilityCall::Batch { calls }) => {
                if depth > 0 {
                    let start = offset + 2 + compact_len(calls@.len());
                    lemma_nested_objects(calls@[0], remark, (k - 1) as nat, start, (depth - 1) as nat);
                    lemma_batch_objects(c, offset, depth);
                    lemma_single_call(calls@, start, (depth - 1) as nat);
                }
            },
            _ => {},
        }
    }
}

/// A remark inside `k` nested batches of one call each is an object of the
/// block if `k` is at most the recursion depth limit, and is silently left
/// out if it is deeper.
pub proof fn lemma_recursion_bound(b: Block, remark: RuntimeCall, k: nat)
    requires
        remark is Remark,
        b.extrinsics@.len() == 1,
        nested_in_batches(b.extrinsics@[0].function, remark, k),
    ensures
        block_objects(b).len() == if k <= MAX_OBJECT_MAPPING_RECURSION_DEPTH {
            1int
        } else {
            0int
        },
        k <= MAX_OBJECT_MAPPING_RECURSION_DEPTH ==> block_objects(b)[0].0 == remark_of(remark),
{
    let s = b.extrinsics@;
    let start = extrinsic_call_offset(s[0], first_extrinsic_offset(b));
    lemma_nested_objects(s[0].function, remark, k, start, MAX_OBJECT_MAPPING_RECURSION_DEPTH as nat);
    lemma_single_extrinsic(b);
}

proof fn lemma_other_calls_objects(s: Seq<Extrinsic>, offset: int)
    requires
        forall|i: int| 0 <= i < s.len() ==> #[trigger] s[i].function is Other,
    ensures
        extrinsics_objects(s, offset).len() == 0,
    decreases s.len(),
{
    if s.len() > 0 {
        let init = s.drop_last();
        assert forall|i: int| 0 <= i < init.len() implies #[trigger] init[i].function is Other by {
            assert(init[i] == s[i]);
        }
        lemma_other_calls_objects(init, offset);
        assert(s.last().function is Other);
    }
}

/// A block whose calls are all of other kinds than remarks and utility calls
/// has no objects.
pub proof fn lemma_no_objects_without_remarks(b: Block)
    requires
        forall|i: int|
            0 <= i < b.extrinsics@.len() ==> #[trigger] b.extrinsics@[i].function is Other,
    ensures
        block_objects(b).len() == 0,
{
    lemma_other_calls_objects(b.extrinsics@, first_extrinsic_offset(b));
}

} // verus!
