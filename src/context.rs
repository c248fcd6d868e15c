use vstd::prelude::*;

use crate::gas::{Gas, GasMeter};
use crate::gas_store::{
    byte_cost, charge_cost, delete_charges, iter_charges, read_charges, write_charges, GasConfig,
    GasRange, GasStoreErrors, DELETE_DESC, ITER_NEXT_DESC, READ_DESC, WRITE_DESC,
};
use crate::multi::{same_block_state, MultiStore, StoreKey};
use crate::sorted_map::{copy_bytes, entries_view, KeyRange};
use crate::store::{lists_range, KVStore, KVStoreMut, StoreLevel};

verus! {

/// One key/value attribute of an event.
#[derive(Clone, Debug, PartialEq, Eq)]
pub struct EventAttribute {
    pub key: String,
    pub value: String,
}

/// A typed event with ordered attributes.
#[derive(Clone, Debug, PartialEq, Eq)]
pub struct Event {
    pub kind: String,
    pub attributes: Vec<EventAttribute>,
}

/// A point in time, as seconds and nanoseconds since the Unix epoch.
#[derive(Clone, Copy, Debug, PartialEq, Eq, Structural)]
pub struct Timestamp {
    pub seconds: i64,
    pub nanos: i32,
}

#[derive(Clone, Debug, PartialEq, Eq)]
pub struct ChainId {
    pub id: String,
}

/// Context of a genesis step: mutable store access without gas, and an event log.
pub struct InitContext {
    pub multi_store: MultiStore,
    pub height: u64,
    pub time: Timestamp,
    pub events: Vec<Event>,
    pub chain_id: ChainId,
}

impl InitContext {
    pub open spec fn wf(&self) -> bool {
        self.multi_store.wf()
    }

    pub fn new(multi_store: MultiStore, height: u64, time: Timestamp, chain_id: ChainId) -> (r:
        InitContext)
        ensures
            r.multi_store == multi_store,
            r.height == height,
            r.time == time,
            r.chain_id == chain_id,
            r.events@.len() == 0,
    {
        InitContext { multi_store, height, time, events: Vec::new(), chain_id }
    }

    pub fn chain_id(&self) -> (r: &ChainId)
        ensures
            *r == self.chain_id,
    {
        &self.chain_id
    }

    pub fn height(&self) -> (r: u64)
        ensures
            r == self.height,
    {
        self.height
    }

    pub fn get_time(&self) -> (r: Option<Timestamp>)
        ensures
            r == Some(self.time),
    {
        Some(self.time)
    }

    pub fn kv_store(&self, key: StoreKey) -> (r: KVStore<'_>)
        requires
            self.multi_store.has_key(key),
        ensures
            *r.store == self.multi_store.store(key),
            r.level == StoreLevel::Tx,
    {
        self.multi_store.kv_store(key)
    }

    /// The store of `key`, for writing without gas.
    pub fn kv_store_mut(&mut self, key: StoreKey) -> (r: &mut KVStoreMut)
        requires
            old(self).multi_store.has_key(key),
        ensures
            *r == old(self).multi_store.store(key),
            final(self).multi_store.stores@ == old(self).multi_store.stores@.update(
                key.index as int,
                *final(r),
            ),
            final(self).events == old(self).events,
            final(self).height == old(self).height,
            final(self).time == old(self).time,
            final(self).chain_id == old(self).chain_id,
    {
        self.multi_store.kv_store_mut(key)
    }

    pub fn set(&mut self, key: StoreKey, k: Vec<u8>, v: Vec<u8>)
        requires
            old(self).wf(),
            old(self).multi_store.has_key(key),
        ensures
            final(self).height == old(self).height,
            final(self).time == old(self).time,
            final(self).chain_id == old(self).chain_id,
            final(self).wf(),
            final(self).multi_store.store(key).tx_view() == old(self).multi_store.store(
                key,
            ).tx_view().insert(k@, v@),
            same_block_state(final(self).multi_store, old(self).multi_store),
            final(self).events == old(self).events,
    {
        self.multi_store.set(key, k, v);
    }

    pub fn delete(&mut self, key: StoreKey, k: &[u8]) -> (r: Option<Vec<u8>>)
        requires
            old(self).wf(),
            old(self).multi_store.has_key(key),
        ensures
            final(self).height == old(self).height,
            final(self).time == old(self).time,
            final(self).chain_id == old(self).chain_id,
            final(self).wf(),
            final(self).multi_store.store(key).tx_view() == old(self).multi_store.store(
                key,
            ).tx_view().remove(k@),
            same_block_state(final(self).multi_store, old(self).multi_store),
            final(self).events == old(self).events,
    {
        self.multi_store.delete(key, k)
    }

    pub fn push_event(&mut self, event: Event)
        ensures
            final(self).height == old(self).height,
            final(self).time == old(self).time,
            final(self).chain_id == old(self).chain_id,
            final(self).events@ == old(self).events@.push(event),
            final(self).multi_store == old(self).multi_store,
    {
        self.events.push(event);
    }

    pub fn append_events(&mut self, events: Vec<Event>)
        ensures
            final(self).height == old(self).height,
            final(self).time == old(self).time,
            final(self).chain_id == old(self).chain_id,
            final(self).events@ == old(self).events@ + events@,
            final(self).multi_store == old(self).multi_store,
    {
        let mut events = events;
        self.events.append(&mut events);
    }

    /// Moves the event log out, leaving it empty.
    pub fn events_drain(&mut self) -> (r: Vec<Event>)
        ensures
            final(self).height == old(self).height,
            final(self).time == old(self).time,
            final(self).chain_id == old(self).chain_id,
            r@ == old(self).events@,
            final(self).events@.len() == 0,
            final(self).multi_store == old(self).multi_store,
    {
        let mut out: Vec<Event> = Vec::new();
        out.append(&mut self.events);
        out
    }

    /// Ends the genesis step, handing the multi-store back.
    pub fn into_multi_store(self) -> (r: MultiStore)
        ensures
            r == self.multi_store,
    {
        self.multi_store
    }
}

/// Context of a transaction: gas-metered mutable store access, an event log, and the block's
/// height and chain id.
pub struct TxContext {
    pub multi_store: MultiStore,
    pub height: u64,
    pub chain_id: ChainId,
    pub events: Vec<Event>,
    pub gas_meter: GasMeter,
    pub gas_config: GasConfig,
}

impl TxContext {
    pub open spec fn wf(&self) -> bool {
        self.multi_store.wf() && self.gas_meter.wf()
    }

    pub open spec fn view_of(&self, key: StoreKey) -> Map<Seq<u8>, Seq<u8>> {
        self.multi_store.store(key).tx_view()
    }

    pub fn new(
        multi_store: MultiStore,
        height: u64,
        chain_id: ChainId,
        gas_limit: Gas,
        gas_config: GasConfig,
    ) -> (r: TxContext)
        ensures
            r.multi_store == multi_store,
            r.height == height,
            r.chain_id == chain_id,
            r.events@.len() == 0,
            r.gas_meter.wf(),
            r.gas_meter.limit == gas_limit,
            r.gas_meter.consumed == 0,
            r.gas_config == gas_config,
    {
        TxContext {
            multi_store,
            height,
            chain_id,
            events: Vec::new(),
            gas_meter: GasMeter::new(gas_limit),
            gas_config,
        }
    }

    pub fn height(&self) -> (r: u64)
        ensures
            r == self.height,
    {
        self.height
    }

    pub fn chain_id(&self) -> (r: &ChainId)
        ensures
            *r == self.chain_id,
    {
        &self.chain_id
    }

    pub fn multi_store(&self) -> (r: &MultiStore)
        ensures
            *r == self.multi_store,
    {
        &self.multi_store
    }

    pub fn kv_store(&self, key: StoreKey) -> (r: KVStore<'_>)
        requires
            self.multi_store.has_key(key),
        ensures
            *r.store == self.multi_store.store(key),
            r.level == StoreLevel::Tx,
    {
        self.multi_store.kv_store(key)
    }

    /// Reads `k` from `key`'s store, charging for the read first.
    pub fn get(&mut self, key: StoreKey, k: &[u8]) -> (r: Result<Vec<u8>, GasStoreErrors>)
        requires
            old(self).wf(),
            old(self).multi_store.has_key(key),
        ensures
            final(self).height == old(self).height,
            final(self).chain_id == old(self).chain_id,
            final(self).wf(),
            final(self).multi_store == old(self).multi_store,
            final(self).events == old(self).events,
            final(self).gas_config == old(self).gas_config,
            final(self).gas_meter.limit == old(self).gas_meter.limit,
            ({
                let view = old(self).view_of(key);
                let found = if view.contains_key(k@) {
                    Some(view[k@].len())
                } else {
                    None
                };
                let m = read_charges(
                    old(self).gas_meter.consumed,
                    old(self).gas_meter.limit,
                    old(self).gas_config,
                    k@.len(),
                    found,
                );
                &&& final(self).gas_meter.consumed == m.0
                &&& match m.1 {
                    Err(e) => r == Err::<Vec<u8>, GasStoreErrors>(e),
                    Ok(_) => match r {
                        Ok(v) => view.contains_key(k@) && view[k@] == v@,
                        Err(e) => e == GasStoreErrors::NotFound && !view.contains_key(k@),
                    },
                }
            }),
    {
        let cfg = self.gas_config;
        let value = self.multi_store.get(key, k);
        let vlen: usize = match &value {
            Some(v) => v.len(),
            None => 0,
        };
        let cost = byte_cost(cfg.read_cost_flat, cfg.read_cost_per_byte, k.len(), vlen);
        let charged = charge_cost(&mut self.gas_meter, cost, READ_DESC);
        if let Err(e) = charged {
            return Err(e);
        }
        match value {
            Some(v) => Ok(v),
            None => Err(GasStoreErrors::NotFound),
        }
    }

    /// Writes `k` in `key`'s store, charging for the write first; a failed charge leaves the
    /// store as it was.
    pub fn set(&mut self, key: StoreKey, k: Vec<u8>, v: Vec<u8>) -> (r: Result<(), GasStoreErrors>)
        requires
            old(self).wf(),
            old(self).multi_store.has_key(key),
        ensures
            final(self).height == old(self).height,
            final(self).chain_id == old(self).chain_id,
            final(self).wf(),
            final(self).events == old(self).events,
            final(self).gas_config == old(self).gas_config,
            final(self).gas_meter.limit == old(self).gas_meter.limit,
            same_block_state(final(self).multi_store, old(self).multi_store),
            ({
                let m = write_charges(
                    old(self).gas_meter.consumed,
                    old(self).gas_meter.limit,
                    old(self).gas_config,
                    k@.len(),
                    v@.len(),
                );
                &&& final(self).gas_meter.consumed == m.0
                &&& r == m.1
                &&& r is Err ==> final(self).multi_store == old(self).multi_store
                &&& r is Ok ==> {
                    &&& final(self).view_of(key) == old(self).view_of(key).insert(k@, v@)
                    &&& forall|i: int|
                        0 <= i < old(self).multi_store.stores@.len() && i != key.index
                            ==> #[trigger] final(self).multi_store.stores@[i] == old(
                            self).multi_store.stores@[i]
                }
            }),
    {
        let cfg = self.gas_config;
        let cost = byte_cost(cfg.write_cost_flat, cfg.write_cost_per_byte, k.len(), v.len());
        let charged = charge_cost(&mut self.gas_meter, cost, WRITE_DESC);
        if let Err(e) = charged {
            return Err(e);
        }
        self.multi_store.set(key, k, v);
        Ok(())
    }

    /// Deletes `k` from `key`'s store, charging for the delete first; returns the removed
    /// value, or `NotFound` when the key was absent.
    pub fn delete(&mut self, key: StoreKey, k: &[u8]) -> (r: Result<Vec<u8>, GasStoreErrors>)
        requires
            old(self).wf(),
            old(self).multi_store.has_key(key),
        ensures
            final(self).height == old(self).height,
            final(self).chain_id == old(self).chain_id,
            final(self).wf(),
            final(self).events == old(self).events,
            final(self).gas_config == old(self).gas_config,
            final(self).gas_meter.limit == old(self).gas_meter.limit,
            same_block_state(final(self).multi_store, old(self).multi_store),
            ({
                let m = delete_charges(
                    old(self).gas_meter.consumed,
                    old(self).gas_meter.limit,
                    old(self).gas_config,
                );
                let view = old(self).view_of(key);
                &&& final(self).gas_meter.consumed == m.0
                &&& match m.1 {
                    Err(e) => r == Err::<Vec<u8>, GasStoreErrors>(e) && final(self).multi_store
                        == old(self).multi_store,
                    Ok(_) => {
                        &&& final(self).view_of(key) == view.remove(k@)
                        &&& forall|i: int|
                            0 <= i < old(self).multi_store.stores@.len() && i != key.index
                                ==> #[trigger] final(self).multi_store.stores@[i] == old(
                                self).multi_store.stores@[i]
                        &&& match r {
                            Ok(v) => view.contains_key(k@) && view[k@] == v@,
                            Err(e) => e == GasStoreErrors::NotFound && !view.contains_key(k@),
                        }
                    },
                }
            }),
    {
        let cfg = self.gas_config;
        let r1 = charge_cost(&mut self.gas_meter, Some(cfg.delete_cost), DELETE_DESC);
        if let Err(e) = r1 {
            return Err(e);
        }
        match self.multi_store.delete(key, k) {
            Some(v) => Ok(v),
            None => Err(GasStoreErrors::NotFound),
        }
    }

    /// Starts a range read over `key`'s store; entries are charged for as they are taken.
    pub fn range(&self, key: StoreKey, r: &KeyRange) -> (out: GasRange)
        requires
            self.wf(),
            self.multi_store.has_key(key),
        ensures
            out.pos == 0,
            lists_range(out.entries@, self.view_of(key), *r),
    {
        GasRange { entries: self.multi_store.range(key, r), pos: 0 }
    }

    /// Takes the next entry of a range read, charging for it first.
    pub fn range_next(&mut self, it: &mut GasRange) -> (r: Option<
        Result<(Vec<u8>, Vec<u8>), GasStoreErrors>,
    >)
        requires
            old(self).wf(),
        ensures
            final(self).height == old(self).height,
            final(self).chain_id == old(self).chain_id,
            final(self).wf(),
            final(self).multi_store == old(self).multi_store,
            final(self).events == old(self).events,
            final(self).gas_config == old(self).gas_config,
            final(self).gas_meter.limit == old(self).gas_meter.limit,
            final(it).entries == old(it).entries,
            old(it).pos >= old(it).entries@.len() ==> r is None && final(it).pos == old(it).pos
                && final(self).gas_meter == old(self).gas_meter,
            old(it).pos < old(it).entries@.len() ==> ({
                let e = entries_view(old(it).entries@)[old(it).pos as int];
                let m = iter_charges(
                    old(self).gas_meter.consumed,
                    old(self).gas_meter.limit,
                    old(self).gas_config,
                    e.0.len(),
                    e.1.len(),
                );
                &&& final(self).gas_meter.consumed == m.0
                &&& match m.1 {
                    Err(err) => r == Some(
                        Err::<(Vec<u8>, Vec<u8>), GasStoreErrors>(err),
                    ) && final(it).pos == old(it).pos,
                    Ok(_) => final(it).pos == old(it).pos + 1 && match r {
                        Some(Ok(kv)) => kv.0@ == e.0 && kv.1@ == e.1,
                        _ => false,
                    },
                }
            }),
    {
        if it.pos >= it.entries.len() {
            return None;
        }
        let cfg = self.gas_config;
        let klen = it.entries[it.pos].0.len();
        let vlen = it.entries[it.pos].1.len();
        let cost = byte_cost(cfg.iter_next_cost_flat, cfg.read_cost_per_byte, klen, vlen);
        let charged = charge_cost(&mut self.gas_meter, cost, ITER_NEXT_DESC);
        if let Err(e) = charged {
            return Some(Err(e));
        }
        let k = copy_bytes(&it.entries[it.pos].0);
        let v = copy_bytes(&it.entries[it.pos].1);
        it.pos = it.pos + 1;
        Some(Ok((k, v)))
    }

    pub fn push_event(&mut self, event: Event)
        ensures
            final(self).height == old(self).height,
            final(self).chain_id == old(self).chain_id,
            final(self).events@ == old(self).events@.push(event),
            final(self).multi_store == old(self).multi_store,
            final(self).gas_meter == old(self).gas_meter,
            final(self).gas_config == old(self).gas_config,
    {
        self.events.push(event);
    }

    pub fn append_events(&mut self, events: Vec<Event>)
        ensures
            final(self).height == old(self).height,
            final(self).chain_id == old(self).chain_id,
            final(self).events@ == old(self).events@ + events@,
            final(self).multi_store == old(self).multi_store,
            final(self).gas_meter == old(self).gas_meter,
            final(self).gas_config == old(self).gas_config,
    {
        let mut events = events;
        self.events.append(&mut events);
    }

    /// Moves the event log out, leaving it empty.
    pub fn events_drain(&mut self) -> (r: Vec<Event>)
        ensures
            final(self).height == old(self).height,
            final(self).chain_id == old(self).chain_id,
            r@ == old(self).events@,
            final(self).events@.len() == 0,
            final(self).multi_store == old(self).multi_store,
            final(self).gas_meter == old(self).gas_meter,
            final(self).gas_config == old(self).gas_config,
    {
        let mut out: Vec<Event> = Vec::new();
        out.append(&mut self.events);
        out
    }

    /// Ends the transaction, handing the multi-store back.
    pub fn into_multi_store(self) -> (r: MultiStore)
        ensures
            r == self.multi_store,
    {
        self.multi_store
    }
}

/// What a gas-metered write of `k` to `v` in `key`'s store leaves, going from `a` to `b`
/// with result `r`: the write charges, then on success the write in the transaction view.
pub open spec fn set_outcome(
    a: TxContext,
    b: TxContext,
    key: StoreKey,
    k: Seq<u8>,
    v: Seq<u8>,
    r: Result<(), GasStoreErrors>,
) -> bool {
    let m = write_charges(a.gas_meter.consumed, a.gas_meter.limit, a.gas_config, k.len(), v.len());
    &&& b.wf()
    &&& b.events == a.events
    &&& b.gas_config == a.gas_config
    &&& b.gas_meter.limit == a.gas_meter.limit
    &&& same_block_state(b.multi_store, a.multi_store)
    &&& b.gas_meter.consumed == m.0
    &&& r == m.1
    &&& r is Err ==> b.multi_store == a.multi_store
    &&& r is Ok ==> {
        &&& b.view_of(key) == a.view_of(key).insert(k, v)
        &&& forall|i: int|
            0 <= i < a.multi_store.stores@.len() && i != key.index ==> #[trigger] b.multi_store.stores@[i]
                == a.multi_store.stores@[i]
    }
}

/// What a gas-metered delete of `k` in `key`'s store leaves, going from `a` to `b` with
/// result `r`: the delete charge, then on success the delete in the transaction view; the
/// removed value, or `NotFound`.
pub open spec fn delete_outcome(
    a: TxContext,
    b: TxContext,
    key: StoreKey,
    k: Seq<u8>,
    r: Result<Vec<u8>, GasStoreErrors>,
) -> bool {
    let m = delete_charges(a.gas_meter.consumed, a.gas_meter.limit, a.gas_config);
    let view = a.view_of(key);
    &&& b.wf()
    &&& b.events == a.events
    &&& b.gas_config == a.gas_config
    &&& b.gas_meter.limit == a.gas_meter.limit
    &&& same_block_state(b.multi_store, a.multi_store)
    &&& b.gas_meter.consumed == m.0
    &&& match m.1 {
        Err(e) => r == Err::<Vec<u8>, GasStoreErrors>(e) && b.multi_store == a.multi_store,
        Ok(_) => {
            &&& b.view_of(key) == view.remove(k)
            &&& forall|i: int|
                0 <= i < a.multi_store.stores@.len() && i != key.index ==> #[trigger] b.multi_store.stores@[i]
                    == a.multi_store.stores@[i]
            &&& match r {
                Ok(v) => view.contains_key(k) && view[k] == v@,
                Err(e) => e == GasStoreErrors::NotFound && !view.contains_key(k),
            }
        },
    }
}

/// Context of a query: read-only access to committed entries, without gas or events.
pub struct QueryContext<'a> {
    pub multi_store: &'a MultiStore,
    pub height: u64,
}

impl<'a> QueryContext<'a> {
    pub fn new(multi_store: &'a MultiStore, height: u64) -> (r: QueryContext<'a>)
        ensures
            r.multi_store == multi_store,
            r.height == height,
    {
        QueryContext { multi_store, height }
    }

    pub fn height(&self) -> (r: u64)
        ensures
            r == self.height,
    {
        self.height
    }

    /// A read-only handle on the committed entries of `key`'s store.
    pub fn kv_store(&self, key: StoreKey) -> (r: KVStore<'a>)
        requires
            self.multi_store.has_key(key),
        ensures
            *r.store == self.multi_store.store(key),
            r.level == StoreLevel::Committed,
    {
        self.multi_store.committed_store(key)
    }
}

} // verus!
