//! The weight model: execution cost as compute time and proof size,
//! with the saturating arithmetic the weight tables are built from, and
//! the database access costs the tables charge per read and write.

pub mod ema_oracle;
pub mod referrals;
pub mod route_executor;
pub mod xyk;

use vstd::prelude::*;

verus! {

/// Cost of one database read, in picoseconds of reference time.
pub const DB_READ_REF_TIME: u64 = 25_000_000;

/// Cost of one database write, in picoseconds of reference time.
pub const DB_WRITE_REF_TIME: u64 = 100_000_000;

/// An execution weight: reference compute time and proof size.
#[derive(Clone, Copy, Debug, PartialEq, Eq, Structural)]
pub struct Weight {
    pub ref_time: u64,
    pub proof_size: u64,
}

impl Weight {
    pub fn zero() -> (r: Weight)
        ensures
            r == (Weight { ref_time: 0, proof_size: 0 }),
    {
        Weight { ref_time: 0, proof_size: 0 }
    }

    pub fn from_parts(ref_time: u64, proof_size: u64) -> (r: Weight)
        ensures
            r == (Weight { ref_time, proof_size }),
    {
        Weight { ref_time, proof_size }
    }

    /// Component-wise saturating addition.
    pub fn saturating_add(self, rhs: Weight) -> (r: Weight)
        ensures
            r.ref_time == if self.ref_time + rhs.ref_time > u64::MAX {
                u64::MAX as int
            } else {
                self.ref_time + rhs.ref_time
            },
            r.proof_size == if self.proof_size + rhs.proof_size > u64::MAX {
                u64::MAX as int
            } else {
                self.proof_size + rhs.proof_size
            },
    {
        Weight {
            ref_time: self.ref_time.saturating_add(rhs.ref_time),
            proof_size: self.proof_size.saturating_add(rhs.proof_size),
        }
    }

    /// Component-wise saturating multiplication by a scalar.
    pub fn saturating_mul(self, m: u64) -> (r: Weight)
        ensures
            r.ref_time == if self.ref_time * m > u64::MAX {
                u64::MAX as int
            } else {
                self.ref_time * m
            },
            r.proof_size == if self.proof_size * m > u64::MAX {
                u64::MAX as int
            } else {
                self.proof_size * m
            },
    {
        let ref_time = match self.ref_time.checked_mul(m) {
            Some(v) => v,
            None => u64::MAX,
        };
        let proof_size = match self.proof_size.checked_mul(m) {
            Some(v) => v,
            None => u64::MAX,
        };
        Weight { ref_time, proof_size }
    }
}

/// Database access costs of the reference storage backend.
pub struct RocksDbWeight;

impl RocksDbWeight {
    /// The weight of `n` database reads.
    pub fn reads(n: u64) -> (r: Weight)
        ensures
            r.ref_time == if DB_READ_REF_TIME * n > u64::MAX {
                u64::MAX as int
            } else {
                DB_READ_REF_TIME * n
            },
            r.proof_size == 0,
    {
        Weight::from_parts(DB_READ_REF_TIME, 0).saturating_mul(n)
    }

    /// The weight of `n` database writes.
    pub fn writes(n: u64) -> (r: Weight)
        ensures
            r.ref_time == if DB_WRITE_REF_TIME * n > u64::MAX {
                u64::MAX as int
            } else {
                DB_WRITE_REF_TIME * n
            },
            r.proof_size == 0,
    {
        Weight::from_parts(DB_WRITE_REF_TIME, 0).saturating_mul(n)
    }
}

/// The flat weight every extrinsic is charged before its own cost.
pub struct ExtrinsicBaseWeight;

impl ExtrinsicBaseWeight {
    pub fn get() -> (r: u64)
        ensures
            r == 791_984_000,
    {
        791_984_000
    }
}

} // verus!
