use subspace_archival::weights::{
    ParityDbWeight, RuntimeDbWeight, SubstrateWeight, Weight, WeightInfo,
};

#[test]
fn set_code_weight_on_parity_db() {
    let w = <() as WeightInfo>::set_code();
    assert_eq!(w.ref_time, 14_475_000_000 + 8_000_000 + 2 * 50_000_000);
    assert_eq!(w.proof_size, 1485);
    let s = <SubstrateWeight<ParityDbWeight> as WeightInfo>::set_code();
    assert_eq!(s.ref_time, w.ref_time);
    assert_eq!(s.proof_size, w.proof_size);
}

#[test]
fn db_weights_saturate() {
    let db = RuntimeDbWeight {
        read: u64::MAX / 2 + 1,
        write: 3,
    };
    assert_eq!(db.reads(1).ref_time, u64::MAX / 2 + 1);
    assert_eq!(db.reads(2).ref_time, u64::MAX);
    assert_eq!(db.writes(4).ref_time, 12);
    assert_eq!(db.writes(0).proof_size, 0);
    let sum = Weight::from_parts(u64::MAX - 1, 5).saturating_add(Weight::from_parts(7, 6));
    assert_eq!(sum.ref_time, u64::MAX);
    assert_eq!(sum.proof_size, 11);
}
