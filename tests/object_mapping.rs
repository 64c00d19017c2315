use parity_scale_codec::{Compact, Encode};
use subspace_archival::encoding::{Block, Extrinsic, RuntimeCall, UtilityCall};
use subspace_archival::object_mapping::{
    extract_block_object_mapping, BlockObjectMapping, MAX_OBJECT_MAPPING_RECURSION_DEPTH,
};

fn compact(n: usize) -> Vec<u8> {
    Compact(n as u32).encode()
}

fn encode_call(call: &RuntimeCall) -> Vec<u8> {
    let mut out = Vec::new();
    match call {
        RuntimeCall::Remark { remark } => {
            out.extend([0u8, 0u8]);
            out.extend(compact(remark.len()));
            out.extend(remark);
        }
        RuntimeCall::Utility(u) => {
            out.push(8);
            match u {
                UtilityCall::Batch { calls } => {
                    out.push(0);
                    out.extend(compact(calls.len()));
                    calls.iter().for_each(|c| out.extend(encode_call(c)));
                }
                UtilityCall::AsDerivative { index, call } => {
                    out.push(1);
                    out.extend(index.to_le_bytes());
                    out.extend(encode_call(call));
                }
                UtilityCall::BatchAll { calls } => {
                    out.push(2);
                    out.extend(compact(calls.len()));
                    calls.iter().for_each(|c| out.extend(encode_call(c)));
                }
                UtilityCall::DispatchAs { as_origin, call } => {
                    out.push(3);
                    out.extend(as_origin);
                    out.extend(encode_call(call));
                }
                UtilityCall::ForceBatch { calls } => {
                    out.push(4);
                    out.extend(compact(calls.len()));
                    calls.iter().for_each(|c| out.extend(encode_call(c)));
                }
                UtilityCall::WithWeight { call, weight } => {
                    out.push(5);
                    out.extend(encode_call(call));
                    out.extend(weight);
                }
            }
        }
        RuntimeCall::Other {
            pallet_index,
            call_encoding,
        } => {
            out.push(*pallet_index);
            out.extend(call_encoding);
        }
    }
    out
}

fn encode_block(block: &Block) -> Vec<u8> {
    let mut out = block.header.clone();
    out.extend(compact(block.extrinsics.len()));
    for e in &block.extrinsics {
        let mut body = Vec::new();
        match &e.signature {
            Some(s) => {
                body.push(0x84);
                body.extend(s);
            }
            None => body.push(0x04),
        }
        body.extend(encode_call(&e.function));
        out.extend(compact(body.len()));
        out.extend(body);
    }
    out
}

fn remark(bytes: &[u8]) -> RuntimeCall {
    RuntimeCall::Remark {
        remark: bytes.to_vec(),
    }
}

fn transfer() -> RuntimeCall {
    RuntimeCall::Other {
        pallet_index: 4,
        call_encoding: vec![0, 7, 7, 7, 7, 1, 2],
    }
}

fn block_of(calls: Vec<(Option<Vec<u8>>, RuntimeCall)>) -> Block {
    Block {
        header: vec![9; 40],
        extrinsics: calls
            .into_iter()
            .map(|(signature, function)| Extrinsic {
                signature,
                function,
            })
            .collect(),
    }
}

/// Checks each object against the block's encoding and returns its bytes.
fn located(block: &Block, mapping: &BlockObjectMapping, lens: &[usize]) -> Vec<Vec<u8>> {
    let encoded = encode_block(block);
    assert_eq!(mapping.objects.len(), lens.len());
    let mut found = Vec::new();
    for (object, len) in mapping.objects.iter().zip(lens) {
        let start = object.offset as usize;
        let bytes = encoded[start..start + len].to_vec();
        assert_eq!(object.hash, *blake3::hash(&bytes).as_bytes());
        found.push(bytes);
    }
    found
}

fn extract(block: &Block) -> BlockObjectMapping {
    let copy = Block {
        header: block.header.clone(),
        extrinsics: block
            .extrinsics
            .iter()
            .map(|e| Extrinsic {
                signature: e.signature.clone(),
                function: clone_call(&e.function),
            })
            .collect(),
    };
    extract_block_object_mapping(copy, vec![])
}

fn clone_call(c: &RuntimeCall) -> RuntimeCall {
    match c {
        RuntimeCall::Remark { remark } => RuntimeCall::Remark {
            remark: remark.clone(),
        },
        RuntimeCall::Other {
            pallet_index,
            call_encoding,
        } => RuntimeCall::Other {
            pallet_index: *pallet_index,
            call_encoding: call_encoding.clone(),
        },
        RuntimeCall::Utility(u) => RuntimeCall::Utility(match u {
            UtilityCall::Batch { calls } => UtilityCall::Batch {
                calls: calls.iter().map(clone_call).collect(),
            },
            UtilityCall::BatchAll { calls } => UtilityCall::BatchAll {
                calls: calls.iter().map(clone_call).collect(),
            },
            UtilityCall::ForceBatch { calls } => UtilityCall::ForceBatch {
                calls: calls.iter().map(clone_call).collect(),
            },
            UtilityCall::AsDerivative { index, call } => UtilityCall::AsDerivative {
                index: *index,
                call: Box::new(clone_call(call)),
            },
            UtilityCall::DispatchAs { as_origin, call } => UtilityCall::DispatchAs {
                as_origin: as_origin.clone(),
                call: Box::new(clone_call(call)),
            },
            UtilityCall::WithWeight { call, weight } => UtilityCall::WithWeight {
                call: Box::new(clone_call(call)),
                weight: weight.clone(),
            },
        }),
    }
}

#[test]
fn single_remark_offset_slices_remark() {
    let block = Block {
        header: vec![1, 2, 3],
        extrinsics: vec![Extrinsic {
            signature: None,
            function: remark(b"hello"),
        }],
    };
    let mapping = extract(&block);
    // header (3), count (1), length (1), version (1), pallet and call (2), remark length (1)
    assert_eq!(mapping.objects.len(), 1);
    assert_eq!(mapping.objects[0].offset, 9);
    assert_eq!(located(&block, &mapping, &[5]), vec![b"hello".to_vec()]);
}

#[test]
fn signed_remark_with_long_payload() {
    let payload = vec![0xab; 300];
    let block = block_of(vec![(Some(vec![5; 99]), remark(&payload))]);
    let mapping = extract(&block);
    // a two-byte remark length and a two-byte extrinsic length
    assert_eq!(mapping.objects[0].offset, 40 + 1 + 2 + 1 + 99 + 2 + 2);
    assert_eq!(located(&block, &mapping, &[300]), vec![payload]);
}

#[test]
fn batch_of_remarks_in_order() {
    let payloads: Vec<Vec<u8>> = (0..5u8).map(|i| vec![i; 10 + i as usize]).collect();
    let calls = payloads.iter().map(|p| remark(p)).collect();
    let block = block_of(vec![(
        None,
        RuntimeCall::Utility(UtilityCall::Batch { calls }),
    )]);
    let mapping = extract(&block);
    let lens: Vec<usize> = payloads.iter().map(|p| p.len()).collect();
    assert_eq!(located(&block, &mapping, &lens), payloads);
    for pair in mapping.objects.windows(2) {
        assert!(pair[0].offset < pair[1].offset);
    }
}

#[test]
fn every_wrapper_kind_is_followed() {
    let inner = vec![
        RuntimeCall::Utility(UtilityCall::AsDerivative {
            index: 513,
            call: Box::new(remark(b"derivative")),
        }),
        RuntimeCall::Utility(UtilityCall::DispatchAs {
            as_origin: vec![0, 1, 2, 3, 4],
            call: Box::new(remark(b"dispatched")),
        }),
        RuntimeCall::Utility(UtilityCall::WithWeight {
            call: Box::new(remark(b"weighted")),
            weight: vec![7; 8],
        }),
        transfer(),
        RuntimeCall::Utility(UtilityCall::ForceBatch {
            calls: vec![remark(b"forced")],
        }),
    ];
    let block = block_of(vec![
        (None, transfer()),
        (
            Some(vec![1; 64]),
            RuntimeCall::Utility(UtilityCall::BatchAll { calls: inner }),
        ),
        (None, remark(b"last")),
    ]);
    let mapping = extract(&block);
    let found = located(&block, &mapping, &[10, 10, 8, 6, 4]);
    assert_eq!(
        found,
        vec![
            b"derivative".to_vec(),
            b"dispatched".to_vec(),
            b"weighted".to_vec(),
            b"forced".to_vec(),
            b"last".to_vec(),
        ]
    );
}

fn nested(k: usize, inner: RuntimeCall) -> RuntimeCall {
    let mut call = inner;
    for _ in 0..k {
        call = RuntimeCall::Utility(UtilityCall::Batch { calls: vec![call] });
    }
    call
}

#[test]
fn remark_within_depth_limit_is_found() {
    let depth = MAX_OBJECT_MAPPING_RECURSION_DEPTH as usize;
    let block = block_of(vec![(None, nested(depth, remark(b"deep")))]);
    let mapping = extract(&block);
    assert_eq!(located(&block, &mapping, &[4]), vec![b"deep".to_vec()]);
}

#[test]
fn remark_beyond_depth_limit_is_omitted() {
    let depth = MAX_OBJECT_MAPPING_RECURSION_DEPTH as usize;
    let block = block_of(vec![
        (None, nested(depth + 1, remark(b"too deep"))),
        (None, nested(depth + 4, remark(b"far too deep"))),
        (None, remark(b"shallow")),
    ]);
    let mapping = extract(&block);
    assert_eq!(located(&block, &mapping, &[7]), vec![b"shallow".to_vec()]);
}

#[test]
fn transfers_only_give_empty_mapping() {
    let block = block_of(vec![(None, transfer()), (Some(vec![3; 10]), transfer())]);
    assert!(extract(&block).objects.is_empty());
}

#[test]
fn empty_block_gives_empty_mapping() {
    let block = block_of(vec![]);
    assert!(extract(&block).objects.is_empty());
}

#[test]
fn empty_remark_and_empty_batch() {
    let block = block_of(vec![
        (None, remark(b"")),
        (None, RuntimeCall::Utility(UtilityCall::Batch { calls: vec![] })),
        (None, remark(b"x")),
    ]);
    let mapping = extract(&block);
    assert_eq!(located(&block, &mapping, &[0, 1]), vec![vec![], b"x".to_vec()]);
    assert!(mapping.objects[0].offset < mapping.objects[1].offset);
}

#[test]
fn encoded_sizes_match_encoding() {
    let call = RuntimeCall::Utility(UtilityCall::Batch {
        calls: (0..70).map(|i| remark(&vec![i as u8; i])).collect(),
    });
    assert_eq!(call.encoded_size() as usize, encode_call(&call).len());
    let e = Extrinsic {
        signature: Some(vec![2; 70]),
        function: call,
    };
    let block = Block {
        header: vec![],
        extrinsics: vec![e],
    };
    let mapping = extract(&block);
    let lens: Vec<usize> = (0..70).collect();
    let found = located(&block, &mapping, &lens);
    assert_eq!(found[69], vec![69u8; 69]);
    assert_eq!(
        block.extrinsics[0].encoded_size() as usize + 1,
        encode_block(&block).len()
    );
}
