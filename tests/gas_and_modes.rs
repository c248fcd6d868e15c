use gears::address::AccAddress;
use gears::baseapp::{route_query, BaseApp, Genesis, InitGenesisHandler, QueryRoute};
use gears::context::{InitContext, Timestamp};
use gears::gov::SendCoins;
use gears::context::{ChainId, Event, TxContext};
use gears::gas::{Gas, GasMeter, GasMeteringErrors};
use gears::gas_store::{GasConfig, GasStoreErrors};
use gears::mode::{after_msg, ABCIHandler, CheckTxMode, DeliverTxMode, RunTxError, Tx, TxError};
use gears::multi::{MultiStore, StoreKey};
use gears::sorted_map::KeyRange;
use gears::store::StoreLevel;

const BANK: StoreKey = StoreKey { index: 0 };

fn chain() -> ChainId {
    ChainId { id: "test-chain".to_string() }
}

fn config(write_flat: u64, write_per_byte: u64) -> GasConfig {
    GasConfig {
        has_cost: 1000,
        delete_cost: 1000,
        read_cost_flat: 1000,
        read_cost_per_byte: 3,
        write_cost_flat: write_flat,
        write_cost_per_byte: write_per_byte,
        iter_next_cost_flat: 30,
    }
}

#[test]
fn finite_meter_fails_on_first_partial_sum_over_limit() {
    let mut m = GasMeter::new(Gas::Finite(100));
    assert_eq!(m.consume_gas(40, "a"), Ok(()));
    assert_eq!(m.consume_gas(60, "b"), Ok(()));
    assert_eq!(m.consume_gas(1, "c"), Err(GasMeteringErrors::ErrorOutOfGas));
    assert_eq!(m.gas_consumed(), 100);
    assert_eq!(m.remaining(), Some(0));
}

#[test]
fn meter_rejects_overflowing_charge() {
    let mut m = GasMeter::new(Gas::Infinite);
    assert_eq!(m.consume_gas(u64::MAX, "a"), Ok(()));
    assert_eq!(m.consume_gas(1, "b"), Err(GasMeteringErrors::ErrorGasOverflow));
    assert_eq!(m.gas_consumed(), u64::MAX);
    assert_eq!(m.remaining(), None);
}

#[test]
fn write_charge_scenario() {
    let mut ctx = TxContext::new(MultiStore::new(1), 1, chain(), Gas::Finite(1000), config(10, 10));
    let key = vec![7u8; 10];
    let value = vec![9u8; 20];
    assert_eq!(ctx.set(BANK, key.clone(), value.clone()), Ok(()));
    assert_eq!(ctx.gas_meter.gas_consumed(), 310);
    assert_eq!(ctx.multi_store.get(BANK, &key), Some(value));
}

#[test]
fn charge_past_limit_leaves_consumed() {
    let mut m = GasMeter::new(Gas::Finite(1000));
    assert_eq!(m.consume_gas(950, "earlier"), Ok(()));
    assert_eq!(m.consume_gas(100, "next"), Err(GasMeteringErrors::ErrorOutOfGas));
    assert_eq!(m.gas_consumed(), 950);
}

#[test]
fn failed_write_charge_leaves_store_untouched() {
    let mut ctx = TxContext::new(MultiStore::new(1), 1, chain(), Gas::Finite(50), config(10, 10));
    let r = ctx.set(BANK, vec![1u8; 3], vec![2u8; 3]);
    assert_eq!(r, Err(GasStoreErrors::Metering(GasMeteringErrors::ErrorOutOfGas)));
    assert_eq!(ctx.gas_meter.gas_consumed(), 0);
    assert_eq!(ctx.multi_store.get(BANK, &[1u8, 1, 1]), None);
}

#[test]
fn write_past_limit_leaves_consumed() {
    let mut ctx = TxContext::new(MultiStore::new(1), 1, chain(), Gas::Finite(1000), config(10, 1));
    ctx.gas_meter.consume_gas(950, "earlier").unwrap();
    let r = ctx.set(BANK, vec![1u8; 30], vec![2u8; 60]);
    assert_eq!(r, Err(GasStoreErrors::Metering(GasMeteringErrors::ErrorOutOfGas)));
    assert_eq!(ctx.gas_meter.gas_consumed(), 950);
    assert_eq!(ctx.multi_store.get(BANK, &[1u8; 30]), None);
}

#[test]
fn read_past_limit_leaves_consumed() {
    let mut ctx = TxContext::new(MultiStore::new(1), 1, chain(), Gas::Finite(1000), GasConfig::kv());
    let r = ctx.get(BANK, b"k");
    assert_eq!(r, Err(GasStoreErrors::Metering(GasMeteringErrors::ErrorOutOfGas)));
    assert_eq!(ctx.gas_meter.gas_consumed(), 0);
}

#[test]
fn read_charges_absent_key_and_reports_not_found() {
    let mut ctx = TxContext::new(MultiStore::new(1), 1, chain(), Gas::Infinite, GasConfig::kv());
    assert_eq!(ctx.get(BANK, b"abcd"), Err(GasStoreErrors::NotFound));
    assert_eq!(ctx.gas_meter.gas_consumed(), 1000 + 3 * 4);
    ctx.set(BANK, b"abcd".to_vec(), b"xy".to_vec()).unwrap();
    let before = ctx.gas_meter.gas_consumed();
    assert_eq!(ctx.get(BANK, b"abcd"), Ok(b"xy".to_vec()));
    assert_eq!(ctx.gas_meter.gas_consumed() - before, 1000 + 3 * 4 + 3 * 2);
}

#[test]
fn delete_charges_and_returns_previous() {
    let mut ctx = TxContext::new(MultiStore::new(1), 1, chain(), Gas::Infinite, GasConfig::kv());
    ctx.set(BANK, b"k".to_vec(), b"v".to_vec()).unwrap();
    let before = ctx.gas_meter.gas_consumed();
    assert_eq!(ctx.delete(BANK, b"k"), Ok(b"v".to_vec()));
    assert_eq!(ctx.gas_meter.gas_consumed() - before, 1000);
    assert_eq!(ctx.delete(BANK, b"k"), Err(GasStoreErrors::NotFound));
}

#[test]
fn range_charges_per_entry_taken() {
    let mut ctx = TxContext::new(MultiStore::new(1), 1, chain(), Gas::Infinite, GasConfig::kv());
    ctx.set(BANK, b"b".to_vec(), b"2".to_vec()).unwrap();
    ctx.set(BANK, b"a".to_vec(), b"1".to_vec()).unwrap();
    let mut it = ctx.range(BANK, &KeyRange::with_prefix(Vec::new()));
    let before = ctx.gas_meter.gas_consumed();
    let first = ctx.range_next(&mut it).unwrap().unwrap();
    assert_eq!(first, (b"a".to_vec(), b"1".to_vec()));
    assert_eq!(ctx.gas_meter.gas_consumed() - before, 30 + 3 + 3);
    let second = ctx.range_next(&mut it).unwrap().unwrap();
    assert_eq!(second.0, b"b".to_vec());
    assert!(ctx.range_next(&mut it).is_none());
}

struct Handler;

/// Each message is (key, value, succeeds); the ante-handler writes a fee record first.
impl ABCIHandler<(Vec<u8>, Vec<u8>, bool)> for Handler {
    fn accepts(&self, ctx: TxContext, msg: (Vec<u8>, Vec<u8>, bool)) -> bool {
        msg.2 && ctx.gas_meter.remaining().map_or(true, |left| left > 0)
    }

    fn run_ante_checks(
        &self,
        ctx: &mut TxContext,
        tx: &Tx<(Vec<u8>, Vec<u8>, bool)>,
    ) -> Result<(), TxError> {
        ctx.set(BANK, b"fee".to_vec(), b"paid".to_vec())
            .map_err(|_| TxError { code: 2, log: "out of gas".to_string() })?;
        if tx.msgs.is_empty() {
            return Err(TxError { code: 3, log: "no messages".to_string() });
        }
        Ok(())
    }

    fn tx(&self, ctx: &mut TxContext, msg: &(Vec<u8>, Vec<u8>, bool)) -> Result<(), TxError> {
        ctx.set(BANK, msg.0.clone(), msg.1.clone())
            .map_err(|_| TxError { code: 2, log: "out of gas".to_string() })?;
        ctx.push_event(Event { kind: "write".to_string(), attributes: Vec::new() });
        if msg.2 {
            Ok(())
        } else {
            Err(TxError { code: 5, log: "rejected".to_string() })
        }
    }
}

fn three_msgs(second_ok: bool) -> Tx<(Vec<u8>, Vec<u8>, bool)> {
    Tx {
        msgs: vec![
            (b"m1".to_vec(), b"1".to_vec(), true),
            (b"m2".to_vec(), b"2".to_vec(), second_ok),
            (b"m3".to_vec(), b"3".to_vec(), true),
        ],
    }
}

fn block_entries(ms: &MultiStore) -> Vec<(Vec<u8>, Vec<u8>)> {
    ms.stores[0].range_at(StoreLevel::Block, &KeyRange::with_prefix(Vec::new()))
}

#[test]
fn check_tx_leaves_block_cache_untouched() {
    let mode = CheckTxMode::new(Gas::Finite(1_000_000));
    let ctx = mode.build_ctx(MultiStore::new(1), 1, chain(), GasConfig::kv());
    let mut ctx = ctx;
    let r = mode.run_tx(&Handler, &mut ctx, &three_msgs(true));
    assert!(r.is_ok());
    assert!(block_entries(&ctx.multi_store).is_empty());
    let r = mode.run_tx(&Handler, &mut ctx, &three_msgs(false));
    assert!(matches!(r, Err(RunTxError::Message { index: 1, .. })));
    assert!(block_entries(&ctx.multi_store).is_empty());
    assert!(mode.runnable(&ctx).is_ok());
}

#[test]
fn deliver_tx_failure_in_second_message_discards_everything() {
    let mode = DeliverTxMode::new(Gas::Finite(1_000_000));
    let mut ctx = mode.build_ctx(MultiStore::new(1), 1, chain(), GasConfig::kv());
    let r = mode.run_tx(&Handler, &mut ctx, &three_msgs(false));
    assert!(matches!(r, Err(RunTxError::Message { index: 1, .. })));
    assert!(block_entries(&ctx.multi_store).is_empty());
    assert_eq!(ctx.multi_store.get(BANK, b"fee"), None);
    assert_eq!(ctx.multi_store.get(BANK, b"m1"), None);
}

#[test]
fn deliver_tx_success_commits_to_block_cache() {
    let mode = DeliverTxMode::new(Gas::Finite(1_000_000));
    let mut ctx = mode.build_ctx(MultiStore::new(1), 1, chain(), GasConfig::kv());
    let events = mode.run_tx(&Handler, &mut ctx, &three_msgs(true)).unwrap();
    assert_eq!(events.len(), 3);
    assert!(ctx.events.is_empty());
    let keys: Vec<Vec<u8>> = block_entries(&ctx.multi_store).into_iter().map(|e| e.0).collect();
    assert_eq!(keys, vec![b"fee".to_vec(), b"m1".to_vec(), b"m2".to_vec(), b"m3".to_vec()]);
    let mut ms = ctx.into_multi_store();
    ms.commit();
    assert_eq!(ms.committed_store(BANK).get(b"m3"), Some(b"3".to_vec()));
}

#[test]
fn deliver_tx_ante_failure_runs_no_message() {
    let mode = DeliverTxMode::new(Gas::Finite(1_000_000));
    let mut ctx = mode.build_ctx(MultiStore::new(1), 1, chain(), GasConfig::kv());
    let r = mode.run_tx(&Handler, &mut ctx, &Tx { msgs: Vec::new() });
    assert!(matches!(r, Err(RunTxError::Ante(TxError { code: 3, .. }))));
    assert!(block_entries(&ctx.multi_store).is_empty());
}

#[test]
fn check_mode_new_sets_limit() {
    let mut mode = CheckTxMode::new(Gas::Finite(77));
    assert_eq!(mode.block_gas_meter_mut().limit, Gas::Finite(77));
    let mut d = DeliverTxMode::new(Gas::Infinite);
    d.reset(Gas::Finite(5));
    assert_eq!(d.block_gas_meter_mut().limit, Gas::Finite(5));
    assert_eq!(d.block_gas_meter.gas_consumed(), 0);
}

#[test]
fn base_app_block_lifecycle() {
    let mut app = BaseApp::new(1, chain(), Gas::Finite(1_000_000), Gas::Finite(1_000_000), GasConfig::kv());
    let checked = app.check_tx(&Handler, &three_msgs(true));
    assert_eq!(checked.code, 0);
    assert!(checked.gas_used > 0);
    assert!(block_entries(&app.multi_store).is_empty());
    let failed = app.deliver_tx(&Handler, &three_msgs(false));
    assert_eq!(failed.code, 5);
    assert_eq!(failed.log, "rejected");
    assert!(block_entries(&app.multi_store).is_empty());
    let ok = app.deliver_tx(&Handler, &three_msgs(true));
    assert_eq!(ok.code, 0);
    assert_eq!(ok.events.len(), 3);
    assert_eq!(app.query(BANK).get(b"m1"), None);
    app.commit();
    assert_eq!(app.height, 1);
    assert_eq!(app.query(BANK).get(b"m1"), Some(b"1".to_vec()));
    assert_eq!(app.query(BANK).get(b"fee"), Some(b"paid".to_vec()));
}

#[derive(Default)]
struct GenesisState {
    accounts: Vec<AccAddress>,
}

impl Genesis for GenesisState {
    fn add_genesis_account(&mut self, address: AccAddress, _coins: SendCoins) -> Result<(), String> {
        if self.accounts.contains(&address) {
            return Err("duplicate account".to_string());
        }
        self.accounts.push(address);
        Ok(())
    }
}

struct GenesisWriter;

impl InitGenesisHandler<GenesisState> for GenesisWriter {
    fn init_genesis(&self, ctx: &mut InitContext, genesis: &GenesisState) {
        for a in &genesis.accounts {
            ctx.set(BANK, a.bytes.clone(), b"account".to_vec());
        }
        ctx.push_event(Event { kind: "genesis".to_string(), attributes: Vec::new() });
    }
}

#[test]
fn init_chain_writes_reach_block_then_durable_store() {
    let mut app = BaseApp::new(1, chain(), Gas::Infinite, Gas::Infinite, GasConfig::kv());
    let mut g = GenesisState::default();
    g.add_genesis_account(AccAddress { bytes: vec![1, 2] }, SendCoins { coins: Vec::new() }).unwrap();
    assert!(g.add_genesis_account(AccAddress { bytes: vec![1, 2] }, SendCoins { coins: Vec::new() }).is_err());
    let events = app.init_chain(&GenesisWriter, &g, Timestamp { seconds: 5, nanos: 0 });
    assert_eq!(events.len(), 1);
    assert_eq!(block_entries(&app.multi_store), vec![(vec![1, 2], b"account".to_vec())]);
    let before = app.multi_store.snapshot();
    app.commit();
    assert_eq!(app.query(BANK).get(&[1, 2]), Some(b"account".to_vec()));
    assert_eq!(before.get(BANK, &[1, 2]), None);
    let after = app.multi_store.snapshot();
    assert_eq!(after.range(BANK, &KeyRange::with_prefix(vec![1])), vec![(vec![1, 2], b"account".to_vec())]);
}

#[test]
fn per_byte_product_overflow_is_reported() {
    let mut ctx = TxContext::new(MultiStore::new(1), 1, chain(), Gas::Infinite, config(1, u64::MAX));
    let r = ctx.set(BANK, vec![1u8, 2], vec![3u8]);
    assert_eq!(r, Err(GasStoreErrors::GasOverflow));
    assert_eq!(ctx.gas_meter.gas_consumed(), 0);
    assert_eq!(ctx.multi_store.get(BANK, &[1u8, 2]), None);
}

#[test]
fn query_paths_route_by_prefix() {
    assert_eq!(route_query("/cosmos.auth.v1beta1.Query/Account"), Some(QueryRoute::Auth));
    assert_eq!(route_query("/cosmos.bank.v1beta1.Query/Balance"), Some(QueryRoute::Bank));
    assert_eq!(route_query("/ibc.core.client.v1.Query/ClientState"), Some(QueryRoute::Ibc));
    assert_eq!(route_query("/cosmos.staking"), None);
    assert_eq!(route_query("/cosmos"), None);
}

#[test]
fn message_outcomes_decide_what_follows() {
    assert_eq!(after_msg(0, 3, Ok(())), Ok(true));
    assert_eq!(after_msg(2, 3, Ok(())), Ok(false));
    let e = TxError { code: 7, log: "no".to_string() };
    assert_eq!(after_msg(1, 3, Err(e.clone())), Err(RunTxError::Message { index: 1, error: e }));
}

#[test]
fn check_steps_report_handler_results() {
    let mut ctx = TxContext::new(MultiStore::new(1), 1, chain(), Gas::Infinite, GasConfig::kv());
    ctx.set(BANK, b"x".to_vec(), b"1".to_vec()).unwrap();
    let e = TxError { code: 4, log: "bad sig".to_string() };
    assert_eq!(CheckTxMode::ante_outcome(&mut ctx, Err(e.clone())), Err(RunTxError::Ante(e)));
    assert_eq!(ctx.multi_store.get(BANK, b"x"), None);
    ctx.push_event(Event { kind: "k".to_string(), attributes: Vec::new() });
    let evs = CheckTxMode::msg_outcome(&mut ctx, Ok(())).unwrap();
    assert_eq!(evs.len(), 1);
    assert!(ctx.events.is_empty());
}
