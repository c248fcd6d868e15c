use vstd::prelude::*;
use vstd::string::StrSliceExecFns;

use crate::context::{ChainId, Event, InitContext, QueryContext, Timestamp};
use crate::address::AccAddress;
use crate::gov::SendCoins;
use crate::gas::Gas;
use crate::gas_store::GasConfig;
use crate::mode::{ABCIHandler, CheckTxMode, DeliverTxMode, RunTxError, Tx};
use crate::multi::{same_block_state, MultiStore, StoreKey};
use crate::store::KVStore;

verus! {

/// A genesis state that accounts can be added to.
pub trait Genesis {
    fn add_genesis_account(&mut self, address: AccAddress, coins: SendCoins) -> Result<(), String>;
}

/// Writes a genesis state into the stores. Like a transaction handler, it works on the
/// transaction view only.
pub trait InitGenesisHandler<G: Genesis> {
    fn init_genesis(&self, ctx: &mut InitContext, genesis: &G)
        requires
            old(ctx).wf(),
        ensures
            final(ctx).wf(),
            same_block_state(final(ctx).multi_store, old(ctx).multi_store),
    ;
}

/// The module a query path goes to.
#[derive(Clone, Copy, Debug, PartialEq, Eq, Structural)]
pub enum QueryRoute {
    Auth,
    Bank,
    Ibc,
}

pub open spec fn has_char_prefix(s: Seq<char>, p: Seq<char>) -> bool {
    p.len() <= s.len() && s.subrange(0, p.len() as int) == p
}

/// Whether `s` starts with `p`.
pub fn str_starts_with(s: &str, p: &str) -> (r: bool)
    ensures
        r == has_char_prefix(s@, p@),
{
    let n = s.unicode_len();
    let m = p.unicode_len();
    if m > n {
        return false;
    }
    let mut i: usize = 0;
    while i < m
        invariant
            n == s@.len(),
            m == p@.len(),
            m <= n,
            i <= m,
            s@.subrange(0, i as int) == p@.subrange(0, i as int),
        decreases m - i,
    {
        if s.get_char(i) != p.get_char(i) {
            proof {
                assert(s@.subrange(0, m as int)[i as int] == s@[i as int]);
            }
            return false;
        }
        proof {
            assert(s@.subrange(0, i + 1) =~= s@.subrange(0, i as int).push(s@[i as int]));
            assert(p@.subrange(0, i + 1) =~= p@.subrange(0, i as int).push(p@[i as int]));
        }
        i = i + 1;
    }
    proof {
        assert(p@.subrange(0, m as int) =~= p@);
    }
    true
}

pub const AUTH_QUERY_PREFIX: &'static str = "/cosmos.auth";
pub const BANK_QUERY_PREFIX: &'static str = "/cosmos.bank";
pub const IBC_QUERY_PREFIX: &'static str = "/ibc.core.client";

/// The module that serves a query path, by its prefix; `None` for an unknown path.
pub fn route_query(path: &str) -> (r: Option<QueryRoute>)
    ensures
        r == (if has_char_prefix(path@, AUTH_QUERY_PREFIX@) {
            Some(QueryRoute::Auth)
        } else if has_char_prefix(path@, BANK_QUERY_PREFIX@) {
            Some(QueryRoute::Bank)
        } else if has_char_prefix(path@, IBC_QUERY_PREFIX@) {
            Some(QueryRoute::Ibc)
        } else {
            None
        }),
{
    if str_starts_with(path, AUTH_QUERY_PREFIX) {
        Some(QueryRoute::Auth)
    } else if str_starts_with(path, BANK_QUERY_PREFIX) {
        Some(QueryRoute::Bank)
    } else if str_starts_with(path, IBC_QUERY_PREFIX) {
        Some(QueryRoute::Ibc)
    } else {
        None
    }
}

/// What the consensus engine is told about one transaction.
pub struct TxResponse {
    /// Zero on success; otherwise the failing handler's code, never zero.
    pub code: u32,
    pub log: String,
    pub gas_used: u64,
    pub events: Vec<Event>,
}

/// The result code reported for a failure.
pub open spec fn failure_code(e: RunTxError) -> u32 {
    let c = match e {
        RunTxError::Ante(t) => t.code,
        RunTxError::Message { error, .. } => error.code,
    };
    if c == 0 {
        1
    } else {
        c
    }
}

/// The response for the outcome `r` of a transaction that used `gas_used`.
pub fn response_of(r: Result<Vec<Event>, RunTxError>, gas_used: u64) -> (resp: TxResponse)
    ensures
        resp.gas_used == gas_used,
        match r {
            Ok(evs) => resp.code == 0 && resp.events@ == evs@,
            Err(e) => resp.code == failure_code(e) && resp.events@.len() == 0,
        },
{
    match r {
        Ok(events) => TxResponse { code: 0, log: String::new(), gas_used, events },
        Err(e) => {
            let (code, log) = match e {
                RunTxError::Ante(t) => (t.code, t.log),
                RunTxError::Message { error, .. } => (error.code, error.log),
            };
            TxResponse { code: if code == 0 { 1 } else { code }, log, gas_used, events: Vec::new() }
        },
    }
}

/// The state machine that the consensus engine drives: the multi-store, the current height,
/// and the check and deliver modes.
pub struct BaseApp {
    pub multi_store: MultiStore,
    pub height: u64,
    pub chain_id: ChainId,
    pub check_mode: CheckTxMode,
    pub deliver_mode: DeliverTxMode,
    pub block_gas_limit: Gas,
    pub gas_config: GasConfig,
}

impl BaseApp {
    pub open spec fn wf(&self) -> bool {
        self.multi_store.wf() && self.multi_store.tx_clean()
    }

    /// An application over `n_stores` empty module stores at height zero.
    pub fn new(
        n_stores: usize,
        chain_id: ChainId,
        check_gas_limit: Gas,
        block_gas_limit: Gas,
        gas_config: GasConfig,
    ) -> (r: BaseApp)
        ensures
            r.wf(),
            r.height == 0,
            r.multi_store.stores@.len() == n_stores,
            r.check_mode.block_gas_meter.limit == check_gas_limit,
            r.deliver_mode.block_gas_meter.limit == block_gas_limit,
    {
        BaseApp {
            multi_store: MultiStore::new(n_stores),
            height: 0,
            chain_id,
            check_mode: CheckTxMode::new(check_gas_limit),
            deliver_mode: DeliverTxMode::new(block_gas_limit),
            block_gas_limit,
            gas_config,
        }
    }

    /// Runs genesis: the handler's writes go to the block cache, to become durable at the
    /// first commit; returns the events it emitted.
    pub fn init_chain<G: Genesis, H: InitGenesisHandler<G>>(
        &mut self,
        handler: &H,
        genesis: &G,
        time: Timestamp,
    ) -> (r: Vec<Event>)
        requires
            old(self).wf(),
        ensures
            final(self).wf(),
            final(self).height == old(self).height,
            final(self).multi_store.stores@.len() == old(self).multi_store.stores@.len(),
            forall|i: int|
                0 <= i < old(self).multi_store.stores@.len() ==> (#[trigger] final(
                    self).multi_store.stores@[i]).committed == old(self).multi_store.stores@[i].committed,
            exists|mid: MultiStore|
                #[trigger] same_block_state(mid, old(self).multi_store) && forall|i: int|
                    0 <= i < mid.stores@.len() ==> (#[trigger] final(
                        self).multi_store.stores@[i]).block_view() == mid.stores@[i].tx_view(),
    {
        let mut ms = MultiStore::new(0);
        std::mem::swap(&mut ms, &mut self.multi_store);
        let mut ctx = InitContext::new(ms, self.height, time, self.chain_id.clone());
        handler.init_genesis(&mut ctx, genesis);
        let events = ctx.events_drain();
        let mut ms = ctx.into_multi_store();
        let ghost mid = ms;
        ms.tx_caches_commit();
        proof {
            assert(same_block_state(mid, old(self).multi_store));
        }
        std::mem::swap(&mut ms, &mut self.multi_store);
        events
    }

    /// Admits a transaction to the mempool, or not. Nothing it writes stays.
    pub fn check_tx<M, H: ABCIHandler<M>>(&mut self, handler: &H, tx: &Tx<M>) -> (r: TxResponse)
        requires
            old(self).wf(),
        ensures
            final(self).wf(),
            same_block_state(final(self).multi_store, old(self).multi_store),
            final(self).height == old(self).height,
            r.code != 0 ==> r.events@.len() == 0,
            match old(self).check_mode.block_gas_meter.limit {
                Gas::Finite(l) => r.gas_used <= l,
                Gas::Infinite => true,
            },
    {
        let mut ms = MultiStore::new(0);
        std::mem::swap(&mut ms, &mut self.multi_store);
        let mut ctx = self.check_mode.build_ctx(ms, self.height, self.chain_id.clone(), self.gas_config);
        let r = self.check_mode.run_tx(handler, &mut ctx, tx);
        let gas_used = ctx.gas_meter.gas_consumed();
        let mut ms = ctx.into_multi_store();
        std::mem::swap(&mut ms, &mut self.multi_store);
        response_of(r, gas_used)
    }

    /// Executes a transaction of the block: its writes reach the block cache only if it
    /// succeeds entirely.
    pub fn deliver_tx<M, H: ABCIHandler<M>>(&mut self, handler: &H, tx: &Tx<M>) -> (r: TxResponse)
        requires
            old(self).wf(),
        ensures
            final(self).wf(),
            final(self).height == old(self).height,
            final(self).multi_store.stores@.len() == old(self).multi_store.stores@.len(),
            r.code != 0 ==> same_block_state(final(self).multi_store, old(self).multi_store)
                && r.events@.len() == 0,
            r.code == 0 ==> exists|mid: MultiStore|
                #[trigger] same_block_state(mid, old(self).multi_store) && forall|i: int|
                    0 <= i < mid.stores@.len() ==> (#[trigger] final(
                        self).multi_store.stores@[i]).block_view() == mid.stores@[i].tx_view(),
            match old(self).deliver_mode.block_gas_meter.limit {
                Gas::Finite(l) => r.gas_used <= l,
                Gas::Infinite => true,
            },
            forall|i: int|
                0 <= i < old(self).multi_store.stores@.len() ==> (#[trigger] final(
                    self).multi_store.stores@[i]).committed == old(self).multi_store.stores@[i].committed,
    {
        let mut ms = MultiStore::new(0);
        std::mem::swap(&mut ms, &mut self.multi_store);
        let mut ctx = self.deliver_mode.build_ctx(ms, self.height, self.chain_id.clone(), self.gas_config);
        let r = self.deliver_mode.run_tx(handler, &mut ctx, tx);
        let gas_used = ctx.gas_meter.gas_consumed();
        let mut ms = ctx.into_multi_store();
        std::mem::swap(&mut ms, &mut self.multi_store);
        response_of(r, gas_used)
    }

    /// Ends the block: the block cache becomes durable, the next height begins, and the
    /// deliver mode gets a fresh meter.
    pub fn commit(&mut self)
        requires
            old(self).wf(),
            old(self).height < u64::MAX,
        ensures
            final(self).wf(),
            final(self).height == old(self).height + 1,
            final(self).multi_store.stores@.len() == old(self).multi_store.stores@.len(),
            forall|i: int|
                0 <= i < old(self).multi_store.stores@.len() ==> (#[trigger] final(
                    self).multi_store.stores@[i]).committed_view() == old(
                    self).multi_store.stores@[i].block_view() && final(self).multi_store.stores@[i].block.pending()
                    == Map::<Seq<u8>, Option<Seq<u8>>>::empty(),
            final(self).deliver_mode.block_gas_meter.consumed == 0,
            final(self).deliver_mode.block_gas_meter.limit == old(self).block_gas_limit,
    {
        self.multi_store.commit();
        self.height = self.height + 1;
        self.deliver_mode.reset(self.block_gas_limit);
    }

    /// A read-only view of the committed entries of `key`'s store.
    pub fn query(&self, key: StoreKey) -> (r: KVStore<'_>)
        requires
            self.multi_store.has_key(key),
        ensures
            *r.store == self.multi_store.store(key),
            r.level == crate::store::StoreLevel::Committed,
    {
        let q = QueryContext::new(&self.multi_store, self.height);
        q.kv_store(key)
    }
}

} // verus!
