use vstd::prelude::*;

use crate::context::{ChainId, Event, TxContext};
use crate::gas::{Gas, GasMeter};
use crate::gas_store::GasConfig;
use crate::multi::{same_block_state, MultiStore};

verus! {

/// A failure reported by a handler, with its result code and reason.
#[derive(Clone, Debug, PartialEq, Eq)]
pub struct TxError {
    pub code: u32,
    pub log: String,
}

/// Why a transaction did not run to completion.
#[derive(Clone, Debug, PartialEq, Eq)]
pub enum RunTxError {
    /// The ante-handler rejected the transaction; no message ran.
    Ante(TxError),
    /// The message at `index` failed; later messages did not run.
    Message { index: usize, error: TxError },
}

/// A decoded transaction: its messages, in order.
pub struct Tx<M> {
    pub msgs: Vec<M>,
}

/// An application's handlers: the ante-handler and the handler of each message.
/// A handler works on the transaction view only: it may read and write through the context,
/// and leaves the block cache and the committed entries as they were.
pub trait ABCIHandler<M> {
    fn run_ante_checks(&self, ctx: &mut TxContext, tx: &Tx<M>) -> (r: Result<(), TxError>)
        requires
            old(ctx).wf(),
        ensures
            final(ctx).wf(),
            same_block_state(final(ctx).multi_store, old(ctx).multi_store),
            final(ctx).gas_meter.limit == old(ctx).gas_meter.limit,
    ;

    /// Whether the handler accepts `msg` when it runs in `ctx`: `tx` succeeds exactly then.
    /// Proofs about the pipeline speak of a handler's outcomes through it.
    spec fn accepts(&self, ctx: TxContext, msg: M) -> bool;

    fn tx(&self, ctx: &mut TxContext, msg: &M) -> (r: Result<(), TxError>)
        requires
            old(ctx).wf(),
        ensures
            final(ctx).wf(),
            same_block_state(final(ctx).multi_store, old(ctx).multi_store),
            final(ctx).gas_meter.limit == old(ctx).gas_meter.limit,
            r is Ok <==> self.accepts(*old(ctx), *msg),
    ;
}

/// What follows the handler's outcome for message `index` of `n`: `Ok(true)` to run the next
/// message, `Ok(false)` after the last one, or the failure that ends the transaction.
pub fn after_msg(index: usize, n: usize, outcome: Result<(), TxError>) -> (r: Result<
    bool,
    RunTxError,
>)
    requires
        index < n,
    ensures
        match outcome {
            Ok(()) => r == Ok::<bool, RunTxError>(index + 1 < n),
            Err(e) => r == Err::<bool, RunTxError>(RunTxError::Message { index, error: e }),
        },
{
    match outcome {
        Ok(()) => Ok(index + 1 < n),
        Err(error) => Err(RunTxError::Message { index, error }),
    }
}

/// The handler accepted each of the first `k` messages, the message at `i` in context `cs[i]`.
pub open spec fn accepted_prefix<M, H: ABCIHandler<M>>(
    handler: H,
    cs: Seq<TxContext>,
    msgs: Seq<M>,
    k: int,
) -> bool {
    &&& cs.len() >= k
    &&& forall|i: int| 0 <= i < k ==> #[trigger] handler.accepts(cs[i], msgs[i])
}

/// Hands each message to the handler, in order, and stops at the first that fails; what
/// follows each outcome is decided by `after_msg`. It succeeds exactly when the handler
/// accepted every message; otherwise it reports the first message refused.
pub fn dispatch_msgs<M, H: ABCIHandler<M>>(handler: &H, ctx: &mut TxContext, msgs: &Vec<M>) -> (r:
    Result<(), RunTxError>)
    requires
        old(ctx).wf(),
    ensures
        final(ctx).wf(),
        same_block_state(final(ctx).multi_store, old(ctx).multi_store),
        final(ctx).gas_meter.limit == old(ctx).gas_meter.limit,
        msgs@.len() == 0 ==> r is Ok && *final(ctx) == *old(ctx),
        r is Ok ==> exists|cs: Seq<TxContext>|
            #[trigger] accepted_prefix(*handler, cs, msgs@, msgs@.len() as int),
        r is Err ==> (r matches Err(RunTxError::Message { index, .. }) && index < msgs@.len()
            && exists|cs: Seq<TxContext>|
            #[trigger] accepted_prefix(*handler, cs, msgs@, index as int) && !handler.accepts(
                cs[index as int],
                msgs@[index as int],
            )),
{
    let n = msgs.len();
    let mut i: usize = 0;
    let ghost cs: Seq<TxContext> = Seq::empty();
    while i < n
        invariant
            ctx.wf(),
            same_block_state(ctx.multi_store, old(ctx).multi_store),
            ctx.gas_meter.limit == old(ctx).gas_meter.limit,
            n == msgs@.len(),
            i <= n,
            i == 0 ==> *ctx == *old(ctx),
            cs.len() == i,
            accepted_prefix(*handler, cs, msgs@, i as int),
        decreases n - i,
    {
        let ghost before = ctx.multi_store;
        let ghost c = *ctx;
        let outcome = handler.tx(ctx, &msgs[i]);
        proof {
            lemma_same_block_state_trans(ctx.multi_store, before, old(ctx).multi_store);
            cs = cs.push(c);
            assert forall|j: int| 0 <= j < i + 1 implies #[trigger] handler.accepts(cs[j], msgs@[j])
                || j == i by {}
        }
        match after_msg(i, n, outcome) {
            Ok(true) => {
                proof {
                    assert(accepted_prefix(*handler, cs, msgs@, i + 1));
                }
            },
            Ok(false) => {
                proof {
                    assert(accepted_prefix(*handler, cs, msgs@, i + 1));
                }
                return Ok(());
            },
            Err(e) => {
                proof {
                    assert(accepted_prefix(*handler, cs, msgs@, i as int));
                }
                return Err(e);
            },
        }
        i = i + 1;
    }
    Ok(())
}

pub proof fn lemma_same_block_state_trans(a: MultiStore, b: MultiStore, c: MultiStore)
    requires
        same_block_state(a, b),
        same_block_state(b, c),
    ensures
        same_block_state(a, c),
{
    assert forall|i: int| 0 <= i < a.stores@.len() implies (#[trigger] a.stores@[i]).block
        == c.stores@[i].block && a.stores@[i].committed == c.stores@[i].committed by {
        assert(a.stores@[i].block == b.stores@[i].block);
        assert(b.stores@[i].block == c.stores@[i].block);
    }
}

/// Mempool admission: every transaction is checked against the check gas limit, and nothing
/// it writes survives it.
pub struct CheckTxMode {
    pub block_gas_meter: GasMeter,
}

impl CheckTxMode {
    pub fn new(max_gas: Gas) -> (r: CheckTxMode)
        ensures
            r.block_gas_meter.wf(),
            r.block_gas_meter.limit == max_gas,
            r.block_gas_meter.consumed == 0,
    {
        CheckTxMode { block_gas_meter: GasMeter::new(max_gas) }
    }

    pub fn block_gas_meter_mut(&mut self) -> (r: &mut GasMeter)
        ensures
            *r == old(self).block_gas_meter,
            final(self).block_gas_meter == *final(r),
    {
        &mut self.block_gas_meter
    }

    /// A transaction context over `multi_store` with this mode's gas limit.
    pub fn build_ctx(
        &self,
        multi_store: MultiStore,
        height: u64,
        chain_id: ChainId,
        gas_config: GasConfig,
    ) -> (r: TxContext)
        ensures
            r.multi_store == multi_store,
            r.height == height,
            r.chain_id == chain_id,
            r.events@.len() == 0,
            r.gas_meter.wf(),
            r.gas_meter.limit == self.block_gas_meter.limit,
            r.gas_meter.consumed == 0,
            r.gas_config == gas_config,
    {
        TxContext::new(multi_store, height, chain_id, self.block_gas_meter.limit, gas_config)
    }

    /// Every transaction may run in check mode.
    pub fn runnable(&self, ctx: &TxContext) -> (r: Result<(), RunTxError>)
        ensures
            r is Ok,
    {
        Ok(())
    }

    /// Ends the ante step of a check: discards whatever the ante-handler wrote and reports
    /// its result.
    pub fn ante_outcome(ctx: &mut TxContext, result: Result<(), TxError>) -> (r: Result<
        (),
        RunTxError,
    >)
        requires
            old(ctx).wf(),
        ensures
            final(ctx).wf(),
            final(ctx).multi_store.tx_clean(),
            same_block_state(final(ctx).multi_store, old(ctx).multi_store),
            final(ctx).gas_meter.limit == old(ctx).gas_meter.limit,
            final(ctx).events == old(ctx).events,
            match result {
                Ok(()) => r is Ok,
                Err(e) => r == Err::<(), RunTxError>(RunTxError::Ante(e)),
            },
    {
        ctx.multi_store.tx_caches_clear();
        match result {
            Ok(()) => Ok(()),
            Err(e) => Err(RunTxError::Ante(e)),
        }
    }

    /// Ends the message step of a check: discards whatever the messages wrote; after success
    /// returns the event log and empties it.
    pub fn msg_outcome(ctx: &mut TxContext, outcome: Result<(), RunTxError>) -> (r: Result<
        Vec<Event>,
        RunTxError,
    >)
        requires
            old(ctx).wf(),
        ensures
            final(ctx).wf(),
            final(ctx).multi_store.tx_clean(),
            same_block_state(final(ctx).multi_store, old(ctx).multi_store),
            final(ctx).gas_meter.limit == old(ctx).gas_meter.limit,
            match outcome {
                Ok(()) => (r matches Ok(evs) && evs@ == old(ctx).events@)
                    && final(ctx).events@.len() == 0,
                Err(e) => r == Err::<Vec<Event>, RunTxError>(e) && final(ctx).events == old(
                    ctx).events,
            },
    {
        ctx.multi_store.tx_caches_clear();
        match outcome {
            Ok(()) => Ok(ctx.events_drain()),
            Err(e) => Err(e),
        }
    }

    /// Runs the ante-handler, then discards whatever it wrote (see `ante_outcome`).
    pub fn run_ante_checks<M, H: ABCIHandler<M>>(
        handler: &H,
        ctx: &mut TxContext,
        tx: &Tx<M>,
    ) -> (r: Result<(), RunTxError>)
        requires
            old(ctx).wf(),
        ensures
            final(ctx).wf(),
            final(ctx).multi_store.tx_clean(),
            same_block_state(final(ctx).multi_store, old(ctx).multi_store),
            final(ctx).gas_meter.limit == old(ctx).gas_meter.limit,
            r is Err ==> (r matches Err(RunTxError::Ante(_))),
    {
        let result = handler.run_ante_checks(ctx, tx);
        let ghost mid = ctx.multi_store;
        let r = Self::ante_outcome(ctx, result);
        proof {
            lemma_same_block_state_trans(ctx.multi_store, mid, old(ctx).multi_store);
        }
        r
    }

    /// Runs the messages, then discards whatever they wrote (see `msg_outcome`).
    pub fn run_msg<M, H: ABCIHandler<M>>(handler: &H, ctx: &mut TxContext, msgs: &Vec<M>) -> (r:
        Result<Vec<Event>, RunTxError>)
        requires
            old(ctx).wf(),
        ensures
            final(ctx).wf(),
            final(ctx).multi_store.tx_clean(),
            same_block_state(final(ctx).multi_store, old(ctx).multi_store),
            final(ctx).gas_meter.limit == old(ctx).gas_meter.limit,
            r is Ok ==> final(ctx).events@.len() == 0,
            msgs@.len() == 0 ==> (r matches Ok(evs) && evs@ == old(ctx).events@),
            r is Ok ==> exists|cs: Seq<TxContext>|
                #[trigger] accepted_prefix(*handler, cs, msgs@, msgs@.len() as int),
    {
        let result = dispatch_msgs(handler, ctx, msgs);
        let ghost mid = ctx.multi_store;
        let r = Self::msg_outcome(ctx, result);
        proof {
            lemma_same_block_state_trans(ctx.multi_store, mid, old(ctx).multi_store);
        }
        r
    }

    /// Checks a transaction: ante-handler, then messages. The block cache and the committed
    /// entries end as they began, whatever the transaction holds and however it ends.
    pub fn run_tx<M, H: ABCIHandler<M>>(
        &self,
        handler: &H,
        ctx: &mut TxContext,
        tx: &Tx<M>,
    ) -> (r: Result<Vec<Event>, RunTxError>)
        requires
            old(ctx).wf(),
        ensures
            final(ctx).wf(),
            final(ctx).multi_store.tx_clean(),
            same_block_state(final(ctx).multi_store, old(ctx).multi_store),
            final(ctx).gas_meter.limit == old(ctx).gas_meter.limit,
    {
        let ghost start = ctx.multi_store;
        let ante = Self::run_ante_checks(handler, ctx, tx);
        if let Err(e) = ante {
            return Err(e);
        }
        let ghost mid = ctx.multi_store;
        let r = Self::run_msg(handler, ctx, &tx.msgs);
        proof {
            lemma_same_block_state_trans(ctx.multi_store, mid, start);
        }
        r
    }
}

/// Block execution: a transaction's writes reach the block cache only if the ante-handler and
/// every message succeed.
pub struct DeliverTxMode {
    pub block_gas_meter: GasMeter,
}

impl DeliverTxMode {
    pub fn new(block_gas_limit: Gas) -> (r: DeliverTxMode)
        ensures
            r.block_gas_meter.wf(),
            r.block_gas_meter.limit == block_gas_limit,
            r.block_gas_meter.consumed == 0,
    {
        DeliverTxMode { block_gas_meter: GasMeter::new(block_gas_limit) }
    }

    /// Starts the next block with a fresh meter.
    pub fn reset(&mut self, block_gas_limit: Gas)
        ensures
            final(self).block_gas_meter.wf(),
            final(self).block_gas_meter.limit == block_gas_limit,
            final(self).block_gas_meter.consumed == 0,
    {
        self.block_gas_meter = GasMeter::new(block_gas_limit);
    }

    pub fn block_gas_meter_mut(&mut self) -> (r: &mut GasMeter)
        ensures
            *r == old(self).block_gas_meter,
            final(self).block_gas_meter == *final(r),
    {
        &mut self.block_gas_meter
    }

    pub fn build_ctx(
        &self,
        multi_store: MultiStore,
        height: u64,
        chain_id: ChainId,
        gas_config: GasConfig,
    ) -> (r: TxContext)
        ensures
            r.multi_store == multi_store,
            r.height == height,
            r.chain_id == chain_id,
            r.events@.len() == 0,
            r.gas_meter.wf(),
            r.gas_meter.limit == self.block_gas_meter.limit,
            r.gas_meter.consumed == 0,
            r.gas_config == gas_config,
    {
        TxContext::new(multi_store, height, chain_id, self.block_gas_meter.limit, gas_config)
    }

    /// Ends a transaction: commits its cache into the block cache after success, and discards
    /// it after any failure.
    pub fn finish(ctx: &mut TxContext, outcome: Result<(), RunTxError>) -> (r: Result<
        Vec<Event>,
        RunTxError,
    >)
        requires
            old(ctx).wf(),
        ensures
            final(ctx).wf(),
            final(ctx).multi_store.tx_clean(),
            final(ctx).multi_store.stores@.len() == old(ctx).multi_store.stores@.len(),
            final(ctx).gas_meter == old(ctx).gas_meter,
            match outcome {
                Ok(()) => {
                    &&& (r matches Ok(evs) && evs@ == old(ctx).events@)
                    &&& forall|i: int|
                        0 <= i < old(ctx).multi_store.stores@.len() ==> (#[trigger] final(
                            ctx).multi_store.stores@[i]).block_view() == old(
                            ctx).multi_store.stores@[i].tx_view()
                            && final(ctx).multi_store.stores@[i].committed == old(
                            ctx).multi_store.stores@[i].committed
                },
                Err(e) => r == Err::<Vec<Event>, RunTxError>(e) && same_block_state(
                    final(ctx).multi_store,
                    old(ctx).multi_store,
                ),
            },
    {
        match outcome {
            Ok(()) => {
                ctx.multi_store.tx_caches_commit();
                Ok(ctx.events_drain())
            },
            Err(e) => {
                ctx.multi_store.tx_caches_clear();
                Err(e)
            },
        }
    }

    /// Delivers a transaction: ante-handler, then messages, then commit or discard. A
    /// failure anywhere leaves the block cache and the committed entries as they began; after
    /// success the block cache holds what the handlers left in the transaction view.
    pub fn run_tx<M, H: ABCIHandler<M>>(
        &self,
        handler: &H,
        ctx: &mut TxContext,
        tx: &Tx<M>,
    ) -> (r: Result<Vec<Event>, RunTxError>)
        requires
            old(ctx).wf(),
        ensures
            final(ctx).wf(),
            final(ctx).multi_store.tx_clean(),
            final(ctx).multi_store.stores@.len() == old(ctx).multi_store.stores@.len(),
            r is Err ==> same_block_state(final(ctx).multi_store, old(ctx).multi_store),
            final(ctx).gas_meter.limit == old(ctx).gas_meter.limit,
            forall|i: int|
                0 <= i < old(ctx).multi_store.stores@.len() ==> (#[trigger] final(
                    ctx).multi_store.stores@[i]).committed == old(ctx).multi_store.stores@[i].committed,
            r is Ok ==> exists|mid: MultiStore|
                #[trigger] same_block_state(mid, old(ctx).multi_store) && forall|i: int|
                    0 <= i < mid.stores@.len() ==> (#[trigger] final(
                        ctx).multi_store.stores@[i]).block_view() == mid.stores@[i].tx_view(),
            r is Ok ==> exists|cs: Seq<TxContext>|
                #[trigger] accepted_prefix(*handler, cs, tx.msgs@, tx.msgs@.len() as int),
            r matches Err(RunTxError::Message { index, .. }) ==> exists|cs: Seq<TxContext>|
                #[trigger] accepted_prefix(*handler, cs, tx.msgs@, index as int)
                    && !handler.accepts(cs[index as int], tx.msgs@[index as int]),
    {
        let ghost start = ctx.multi_store;
        let ante = handler.run_ante_checks(ctx, tx);
        let outcome = match ante {
            Err(e) => Err(RunTxError::Ante(e)),
            Ok(()) => {
                let ghost a = ctx.multi_store;
                let o = dispatch_msgs(handler, ctx, &tx.msgs);
                proof {
                    lemma_same_block_state_trans(ctx.multi_store, a, start);
                }
                o
            },
        };
        let ghost mid = ctx.multi_store;
        let r = Self::finish(ctx, outcome);
        proof {
            if r is Err {
                lemma_same_block_state_trans(ctx.multi_store, mid, start);
            } else {
                assert(same_block_state(mid, start));
                assert forall|i: int| 0 <= i < start.stores@.len() implies (#[trigger] ctx.multi_store.stores@[i]).committed
                    == start.stores@[i].committed by {
                    assert(mid.stores@[i].committed == start.stores@[i].committed);
                }
            }
        }
        r
    }
}

} // verus!
