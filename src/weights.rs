//! Weights of the executive pallet's calls.
use vstd::prelude::*;

verus! {

/// `x`, or `u64::MAX` if `x` is larger.
pub open spec fn saturate(x: int) -> u64 {
    if x > u64::MAX {
        u64::MAX
    } else {
        x as u64
    }
}

/// The cost of a call: its computation time and the size of its proof.
#[derive(Clone, Copy)]
pub struct Weight {
    pub ref_time: u64,
    pub proof_size: u64,
}

impl Weight {
    pub fn from_parts(ref_time: u64, proof_size: u64) -> (r: Weight)
        ensures
            r == (Weight { ref_time, proof_size }),
    {
        Weight { ref_time, proof_size }
    }

    pub open spec fn spec_saturating_add(self, rhs: Weight) -> Weight {
        Weight {
            ref_time: saturate(self.ref_time + rhs.ref_time),
            proof_size: saturate(self.proof_size + rhs.proof_size),
        }
    }

    /// The sum of both parts, each capped at `u64::MAX`.
    pub fn saturating_add(self, rhs: Weight) -> (r: Weight)
        ensures
            r == self.spec_saturating_add(rhs),
    {
        Weight {
            ref_time: self.ref_time.saturating_add(rhs.ref_time),
            proof_size: self.proof_size.saturating_add(rhs.proof_size),
        }
    }
}

/// `x * n`, capped at `u64::MAX`.
fn saturating_mul(x: u64, n: u64) -> (r: u64)
    ensures
        r == saturate(x * n),
{
    if n != 0 && x > u64::MAX / n {
        assert(x * n > u64::MAX) by (nonlinear_arith)
            requires
                n > 0,
                x > u64::MAX / n,
        ;
        u64::MAX
    } else {
        assert(x * n <= u64::MAX) by (nonlinear_arith)
            requires
                n == 0 || x <= u64::MAX / n,
        ;
        x * n
    }
}

/// The weight of one database read and of one write.
#[derive(Clone, Copy)]
pub struct RuntimeDbWeight {
    pub read: u64,
    pub write: u64,
}

impl RuntimeDbWeight {
    pub open spec fn spec_reads(self, r: u64) -> Weight {
        Weight { ref_time: saturate(self.read * r), proof_size: 0 }
    }

    pub open spec fn spec_writes(self, w: u64) -> Weight {
        Weight { ref_time: saturate(self.write * w), proof_size: 0 }
    }

    /// The weight of `r` reads.
    pub fn reads(self, r: u64) -> (res: Weight)
        ensures
            res == self.spec_reads(r),
    {
        Weight::from_parts(saturating_mul(self.read, r), 0)
    }

    /// The weight of `w` writes.
    pub fn writes(self, w: u64) -> (res: Weight)
        ensures
            res == self.spec_writes(w),
    {
        Weight::from_parts(saturating_mul(self.write, w), 0)
    }
}

/// Computation time of one nanosecond, in weight units.
pub const WEIGHT_REF_TIME_PER_NANOS: u64 = 1_000;

/// Where a runtime takes the weights of its database operations from.
pub trait DbWeightSource {
    spec fn spec_db_weight() -> RuntimeDbWeight;

    fn get() -> (r: RuntimeDbWeight)
        ensures
            r == Self::spec_db_weight(),
    ;
}

/// The database weights of ParityDb.
pub struct ParityDbWeight;

impl DbWeightSource for ParityDbWeight {
    open spec fn spec_db_weight() -> RuntimeDbWeight {
        RuntimeDbWeight {
            read: (8_000 * WEIGHT_REF_TIME_PER_NANOS) as u64,
            write: (50_000 * WEIGHT_REF_TIME_PER_NANOS) as u64,
        }
    }

    fn get() -> (r: RuntimeDbWeight) {
        RuntimeDbWeight {
            read: 8_000 * WEIGHT_REF_TIME_PER_NANOS,
            write: 50_000 * WEIGHT_REF_TIME_PER_NANOS,
        }
    }
}

/// Weight of `set_code`, given the database weights: the measured base
/// weight, one read and two writes.
pub open spec fn set_code_weight(db: RuntimeDbWeight) -> Weight {
    Weight { ref_time: 14_475_000_000, proof_size: 1485 }.spec_saturating_add(
        db.spec_reads(1),
    ).spec_saturating_add(db.spec_writes(2))
}

/// The weights of the executive pallet's calls.
pub trait WeightInfo {
    spec fn spec_set_code() -> Weight;

    fn set_code() -> (r: Weight)
        ensures
            r == Self::spec_set_code(),
    ;
}

/// Weights for the executive pallet on a runtime whose database weights come
/// from `T`.
pub struct SubstrateWeight<T>(pub core::marker::PhantomData<T>);

impl<T: DbWeightSource> WeightInfo for SubstrateWeight<T> {
    open spec fn spec_set_code() -> Weight {
        set_code_weight(T::spec_db_weight())
    }

    fn set_code() -> (r: Weight) {
        Weight::from_parts(14_475_000_000, 1485).saturating_add(T::get().reads(1)).saturating_add(
            T::get().writes(2),
        )
    }
}

impl WeightInfo for () {
    open spec fn spec_set_code() -> Weight {
        set_code_weight(ParityDbWeight::spec_db_weight())
    }

    fn set_code() -> (r: Weight) {
        Weight::from_parts(14_475_000_000, 1485).saturating_add(
            ParityDbWeight::get().reads(1),
        ).saturating_add(ParityDbWeight::get().writes(2))
    }
}

} // verus!
