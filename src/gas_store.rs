use vstd::prelude::*;

use crate::gas::{charge, Gas, GasMeter, GasMeteringErrors};

verus! {

pub const READ_DESC: &'static str = "Read";
pub const WRITE_DESC: &'static str = "Write";
pub const DELETE_DESC: &'static str = "Delete";
pub const ITER_NEXT_DESC: &'static str = "IterNext";

/// What each store operation costs.
#[derive(Clone, Copy, Debug, PartialEq, Eq, Structural)]
pub struct GasConfig {
    pub has_cost: u64,
    pub delete_cost: u64,
    pub read_cost_flat: u64,
    pub read_cost_per_byte: u64,
    pub write_cost_flat: u64,
    pub write_cost_per_byte: u64,
    pub iter_next_cost_flat: u64,
}

impl GasConfig {
    /// The cost table of the key-value stores.
    pub fn kv() -> (r: GasConfig)
        ensures
            r.has_cost == 1000,
            r.delete_cost == 1000,
            r.read_cost_flat == 1000,
            r.read_cost_per_byte == 3,
            r.write_cost_flat == 2000,
            r.write_cost_per_byte == 30,
            r.iter_next_cost_flat == 30,
    {
        GasConfig {
            has_cost: 1000,
            delete_cost: 1000,
            read_cost_flat: 1000,
            read_cost_per_byte: 3,
            write_cost_flat: 2000,
            write_cost_per_byte: 30,
            iter_next_cost_flat: 30,
        }
    }
}

/// Errors of a gas-metered store operation.
#[derive(Clone, Copy, Debug, PartialEq, Eq, Structural)]
pub enum GasStoreErrors {
    /// The key is absent.
    NotFound,
    /// A charge could not be computed in the integer domain.
    GasOverflow,
    /// The meter refused a charge.
    Metering(GasMeteringErrors),
}

/// Where a meter stands after one charge: the consumed total, and the error if it failed.
pub type Metered = (nat, Result<(), GasStoreErrors>);

/// Charges `cost` at once to a meter that has consumed `consumed` of `limit`. A cost that
/// does not fit the integer domain, or that the meter refuses, leaves `consumed` as it was.
pub open spec fn metered(consumed: u64, limit: Gas, cost: int) -> Metered {
    if cost > u64::MAX {
        (consumed as nat, Err(GasStoreErrors::GasOverflow))
    } else {
        match charge(consumed as nat, limit, cost as nat) {
            Ok(c) => (c, Ok(())),
            Err(e) => (consumed as nat, Err(GasStoreErrors::Metering(e))),
        }
    }
}

/// The cost of a read of a key of `klen` bytes that found a value of `vlen` bytes, if any:
/// the flat cost, and the per-byte cost of the key and of the value found.
pub open spec fn read_cost(cfg: GasConfig, klen: nat, vlen: Option<nat>) -> int {
    cfg.read_cost_flat + cfg.read_cost_per_byte * (klen + match vlen {
        Some(n) => n,
        None => 0nat,
    })
}

/// The cost of a write of a key of `klen` bytes and a value of `vlen` bytes.
pub open spec fn write_cost(cfg: GasConfig, klen: nat, vlen: nat) -> int {
    cfg.write_cost_flat + cfg.write_cost_per_byte * (klen + vlen)
}

/// The cost of one step of a range read that yields a key of `klen` bytes and a value of
/// `vlen` bytes.
pub open spec fn iter_cost(cfg: GasConfig, klen: nat, vlen: nat) -> int {
    cfg.iter_next_cost_flat + cfg.read_cost_per_byte * (klen + vlen)
}

pub open spec fn read_charges(
    consumed: u64,
    limit: Gas,
    cfg: GasConfig,
    klen: nat,
    vlen: Option<nat>,
) -> Metered {
    metered(consumed, limit, read_cost(cfg, klen, vlen))
}

pub open spec fn write_charges(
    consumed: u64,
    limit: Gas,
    cfg: GasConfig,
    klen: nat,
    vlen: nat,
) -> Metered {
    metered(consumed, limit, write_cost(cfg, klen, vlen))
}

pub open spec fn delete_charges(consumed: u64, limit: Gas, cfg: GasConfig) -> Metered {
    metered(consumed, limit, cfg.delete_cost as int)
}

pub open spec fn iter_charges(
    consumed: u64,
    limit: Gas,
    cfg: GasConfig,
    klen: nat,
    vlen: nat,
) -> Metered {
    metered(consumed, limit, iter_cost(cfg, klen, vlen))
}

/// `flat + per_byte * (a + b)`, or `None` when it does not fit in a `u64`.
pub fn byte_cost(flat: u64, per_byte: u64, a: usize, b: usize) -> (r: Option<u64>)
    ensures
        match r {
            Some(c) => c == flat + per_byte * (a + b),
            None => flat + per_byte * (a + b) > u64::MAX,
        },
{
    proof {
        assert(per_byte * (a + b) == per_byte * a + per_byte * b) by (nonlinear_arith);
        assert(per_byte * a >= 0 && per_byte * b >= 0) by (nonlinear_arith);
    }
    let pa = match per_byte.checked_mul(a as u64) {
        Some(x) => x,
        None => return None,
    };
    let pb = match per_byte.checked_mul(b as u64) {
        Some(x) => x,
        None => return None,
    };
    let bytes = match pa.checked_add(pb) {
        Some(x) => x,
        None => return None,
    };
    flat.checked_add(bytes)
}

/// Charges `cost` to the meter at once; `None` stands for a cost that does not fit.
pub fn charge_cost(meter: &mut GasMeter, cost: Option<u64>, descriptor: &'static str) -> (r:
    Result<(), GasStoreErrors>)
    requires
        old(meter).wf(),
    ensures
        final(meter).wf(),
        final(meter).limit == old(meter).limit,
        ({
            let m = metered(
                old(meter).consumed,
                old(meter).limit,
                match cost {
                    Some(c) => c as int,
                    None => u64::MAX + 1,
                },
            );
            final(meter).consumed == m.0 && r == m.1
        }),
{
    match cost {
        None => Err(GasStoreErrors::GasOverflow),
        Some(c) => match meter.consume_gas(c, descriptor) {
            Ok(()) => Ok(()),
            Err(e) => Err(GasStoreErrors::Metering(e)),
        },
    }
}

/// A range read whose entries are charged for one at a time, as they are taken.
pub struct GasRange {
    pub entries: Vec<(Vec<u8>, Vec<u8>)>,
    pub pos: usize,
}

} // verus!
