use gears::address::{AccAddress, PublicKey, ValAddress};
use gears::coin::{CoinError, CoinRaw, Denom, IntProto, Uint256Proto, UnsignedCoin};
use gears::context::{ChainId, InitContext, Timestamp, TxContext};
use gears::gas::Gas;
use gears::gas_store::GasConfig;
use gears::gov::Deposit;
use gears::keeper::{Keeper, KeeperError, StateCorruption};
use gears::multi::{MultiStore, StoreKey};
use gears::num::{Decimal256, Uint256};
use gears::staking::{
    RedelegationEntry, UnbondingDelegationEntry,
    BondStatus, Commission, CommissionRates, Description, DvPair, DvvTriplet, LastValidatorPower,
    StakingError, Validator,
};

const STAKING: StoreKey = StoreKey { index: 0 };

fn hex(s: &str) -> Vec<u8> {
    (0..s.len()).step_by(2).map(|i| u8::from_str_radix(&s[i..i + 2], 16).unwrap()).collect()
}

fn dec(n: u128) -> Decimal256 {
    Decimal256 { atomics: Uint256::from_u128(n) }
}

fn description() -> Description {
    Description {
        moniker: "m".to_string(),
        identity: String::new(),
        website: String::new(),
        security_contact: String::new(),
        details: String::new(),
    }
}

fn validator(tokens: u128) -> Validator {
    let mut v = Validator::new_with_defaults(
        ValAddress { bytes: vec![1u8; 20] },
        PublicKey::Ed25519((0u8..32).collect()),
        description(),
    );
    v.tokens = Uint256::from_u128(tokens);
    v
}

fn tx_ctx() -> TxContext {
    TxContext::new(
        MultiStore::new(1),
        1,
        ChainId { id: "c".to_string() },
        Gas::Infinite,
        GasConfig::kv(),
    )
}

#[test]
fn coin_round_trip() {
    let c = UnsignedCoin::from_str("100uatom").unwrap();
    assert_eq!(c.amount().to_u64(), Some(100));
    assert_eq!(c.denom().as_str(), "uatom");
    assert_eq!(c.to_string(), "100uatom");
}

#[test]
fn coin_errors() {
    assert_eq!(UnsignedCoin::from_str("uatom"), Err(CoinError::Uint));
    assert_eq!(UnsignedCoin::from_str("10u"), Err(CoinError::Denom));
    assert_eq!(UnsignedCoin::from_str("10"), Err(CoinError::Denom));
    assert_eq!(UnsignedCoin::from_str("5ibc/ABC-1.x_y:z").unwrap().to_string(), "5ibc/ABC-1.x_y:z");
    let huge = format!("{}uatom", "9".repeat(80));
    assert_eq!(UnsignedCoin::from_str(&huge), Err(CoinError::Uint));
    assert_eq!(Denom::from_str("1atom"), Err(CoinError::Denom));
}

#[test]
fn uint256_arithmetic() {
    let big = Uint256 { hi: 1, lo: 0 };
    let two = Uint256::from_u128(2);
    let q = big.checked_div(two).unwrap();
    assert_eq!(q, Uint256 { hi: 0, lo: 1u128 << 127 });
    assert_eq!(big.checked_div(Uint256::zero()), None);
    assert_eq!(Uint256 { hi: u128::MAX, lo: u128::MAX }.checked_add(Uint256::one()), None);
    assert_eq!(big.checked_mul(big), None);
    assert_eq!(two.checked_mul(two), Some(Uint256::from_u128(4)));
    assert_eq!(big.to_string(), "340282366920938463463374607431768211456");
    assert!(Uint256::from_u128(3).le(&big));
}

#[test]
fn decimal_arithmetic() {
    let one = dec(1_000_000_000_000_000_000);
    let half = dec(500_000_000_000_000_000);
    assert_eq!(half.checked_mul(half), Some(dec(250_000_000_000_000_000)));
    assert_eq!(one.checked_div(half), Some(dec(2_000_000_000_000_000_000)));
    assert_eq!(one.checked_div(Decimal256::zero()), None);
    assert_eq!(Decimal256::from_uint(Uint256::from_u128(3)), Some(dec(3_000_000_000_000_000_000)));
}

#[test]
fn validator_power() {
    let mut v = validator(5_000_000);
    assert_eq!(v.tokens_to_consensus_power(1_000_000), 5);
    assert_eq!(v.potential_tendermint_power(), 5);
    assert_eq!(v.tendermint_power(), 0);
    assert_eq!(v.consensus_power(1_000_000), 0);
    v.update_status(BondStatus::Bonded);
    assert_eq!(v.tendermint_power(), 5);
    assert_eq!(v.consensus_power(1_000_000), 5);
    assert_eq!(v.potential_consensus_power(1_000_000), 5);
    assert_eq!(v.abci_validator_update(1_000_000).power, 5);
    v.update_status(BondStatus::Unbonded);
    assert_eq!(v.abci_validator_update_zero().power, 0);
}

#[test]
fn validator_defaults() {
    let v = Validator::new_with_defaults(
        ValAddress { bytes: vec![9] },
        PublicKey::Secp256k1(vec![2; 33]),
        description(),
    );
    assert_eq!(v.min_self_delegation, Uint256::one());
    assert_eq!(v.status, BondStatus::Unbonded);
    assert!(v.delegator_shares.is_zero());
    assert!(!v.jailed);
    assert_eq!(v.status.as_str(), "Unbonded");
}

#[test]
fn delegation_shares() {
    let mut v = validator(0);
    let first = v.add_tokens_from_del(Uint256::from_u128(100));
    assert_eq!(first, dec(100));
    assert_eq!(v.tokens, Uint256::from_u128(100));
    assert_eq!(v.delegator_shares, dec(100));
    // 100 share atomics times 50 atomics, rounded to 18 digits, is zero.
    let second = v.add_tokens_from_del(Uint256::from_u128(50));
    assert_eq!(second, dec(0));
    assert_eq!(v.tokens, Uint256::from_u128(150));
    assert_eq!(v.delegator_shares, dec(100));
    assert_eq!(
        v.tokens_from_shares(dec(30_000_000_000_000_000_000)),
        Ok(dec(45_000_000_000_000_000_000))
    );
    assert!(!v.invalid_ex_rate());
    let mut big = validator(2_000_000_000_000_000_000);
    big.delegator_shares = dec(4_000_000_000_000_000_000);
    assert_eq!(
        big.shares_from_tokens(Uint256::from_u128(1_000_000_000_000_000_000)),
        Ok(dec(2_000_000_000_000_000_000))
    );
    let mut unit = validator(1);
    unit.delegator_shares = dec(1);
    assert_eq!(unit.shares_from_tokens(Uint256::one()), Ok(dec(0)));
    assert_eq!(unit.tokens_from_shares(dec(1)), Ok(dec(0)));
    let empty = validator(0);
    assert_eq!(empty.shares_from_tokens(Uint256::one()), Err(StakingError::InsufficientShares));
    let mut broken = validator(0);
    broken.delegator_shares = dec(1);
    assert!(broken.invalid_ex_rate());
    assert_eq!(broken.tokens_from_shares(dec(1)), Ok(dec(0)));
    assert_eq!(validator(5).tokens_from_shares(dec(1)), Err(StakingError::Arithmetic));
}

#[test]
fn commission_rules() {
    let mut v = validator(0);
    let rates = |rate, max_rate, max_change_rate| Commission {
        commission_rates: CommissionRates {
            rate: dec(rate),
            max_rate: dec(max_rate),
            max_change_rate: dec(max_change_rate),
        },
        update_time: Timestamp { seconds: 1, nanos: 0 },
    };
    let ok = rates(100_000_000_000_000_000, 200_000_000_000_000_000, 10_000_000_000_000_000);
    assert_eq!(v.set_initial_commission(ok), Ok(()));
    assert_eq!(v.commission, ok);
    let too_high = rates(1, 2_000_000_000_000_000_000, 1);
    assert_eq!(v.set_initial_commission(too_high), Err(StakingError::InvalidCommission));
    let rate_over_max = rates(3, 2, 1);
    assert_eq!(v.set_initial_commission(rate_over_max), Err(StakingError::InvalidCommission));
    assert_eq!(v.commission, ok);
}

#[test]
fn consensus_addresses() {
    let v = validator(0);
    assert_eq!(v.cons_addr().bytes, hex("630dcd2966c4336691125448bbb25b4ff412a49c"));
    let secp = PublicKey::Secp256k1((0u8..33).collect());
    assert_eq!(secp.cons_address().bytes, hex("c31b1d87d352c7f17bc1e24942b05bdd4c3387ea"));
    assert_eq!(secp.str_type(), "secp256k1");
    assert_eq!(PublicKey::Ed25519(vec![1]).raw(), &vec![1u8]);
}

#[test]
fn power_index_key_layout() {
    let v = validator(5_000_000);
    let key = v.key_by_power_index_key(1_000_000);
    let text = "cosmosvaloper1qyqszqgpqyqszqgpqyqszqgpqyqszqgph84tp0";
    let mut expected = vec![0x23, 0, 0, 0, 0, 0, 0, 0, 5, text.len() as u8];
    expected.extend(text.bytes().map(|b| 255 - b));
    assert_eq!(key, expected);
}

#[test]
fn keeper_power_index() {
    let keeper = Keeper { store_key: STAKING, power_reduction: 1_000_000 };
    let mut ctx = tx_ctx();
    let mut jailed = validator(2_000_000);
    jailed.jailed = true;
    keeper.set_validator_by_power_index(&mut ctx, &jailed).unwrap();
    assert!(keeper.validators_power_store_vals_vec(&mut ctx).unwrap().is_empty());
    let v = validator(5_000_000);
    keeper.set_validator_by_power_index(&mut ctx, &v).unwrap();
    let mut w = validator(7_000_000);
    w.operator_address = ValAddress { bytes: vec![2u8; 20] };
    keeper.set_new_validator_by_power_index(&mut ctx, &w).unwrap();
    let addrs = keeper.validators_power_store_vals_vec(&mut ctx).unwrap();
    assert_eq!(addrs.len(), 2);
    assert_eq!(keeper.delete_validator_by_power_index(&mut ctx, &v).unwrap(), Some(vec![1u8; 20]));
    assert_eq!(keeper.delete_validator_by_power_index(&mut ctx, &v).unwrap(), None);
    assert_eq!(keeper.validators_power_store_vals_vec(&mut ctx).unwrap(), vec![w.operator_address]);
}

#[test]
fn keeper_last_powers() {
    let keeper = Keeper { store_key: STAKING, power_reduction: 1_000_000 };
    let mut ctx = tx_ctx();
    assert_eq!(keeper.last_total_power(&ctx), Ok(None));
    keeper.set_last_total_power(&mut ctx, Uint256::from_u128(100)).unwrap();
    assert_eq!(ctx.multi_store.get(STAKING, &[0x12]), Some(vec![0x0a, 3, b'1', b'0', b'0']));
    assert_eq!(keeper.last_total_power(&ctx), Err(StateCorruption));
    let mut raw = vec![0u8; 32];
    raw[31] = 7;
    raw[15] = 1;
    ctx.set(STAKING, vec![0x12], raw).unwrap();
    assert_eq!(keeper.last_total_power(&ctx), Ok(Some(Uint256 { hi: 1, lo: 7 })));

    let addr = ValAddress { bytes: vec![4, 5] };
    let lvp = LastValidatorPower { address: addr.clone(), power: 10 };
    keeper.set_last_validator_power(&mut ctx, &lvp).unwrap();
    assert_eq!(ctx.multi_store.get(STAKING, &[0x11, 2, 4, 5]), Some(vec![0x08, 0x0a]));
    let other = ValAddress { bytes: vec![1] };
    keeper.set_last_validator_power(&mut ctx, &LastValidatorPower { address: other.clone(), power: 0 }).unwrap();
    assert_eq!(
        keeper.last_validators_by_addr(&ctx),
        Ok(vec![(other.clone(), 0), (addr.clone(), 10)])
    );
    ctx.set(STAKING, vec![0x11, 5, 1], Vec::new()).unwrap();
    assert_eq!(keeper.last_validators_by_addr(&ctx), Err(StateCorruption));
    ctx.delete(STAKING, &[0x11, 5, 1]).unwrap();
    ctx.set(STAKING, vec![0x11, 1, 9], vec![0x08, 0x7f, 0xff]).unwrap();
    assert_eq!(keeper.last_validators_by_addr(&ctx), Err(StateCorruption));
    ctx.delete(STAKING, &[0x11, 1, 9]).unwrap();
    keeper.delete_last_validator_power(&mut ctx, &other).unwrap();
    assert_eq!(keeper.delete_last_validator_power(&mut ctx, &addr).unwrap(), Some(vec![0x08, 0x0a]));
    assert_eq!(keeper.delete_last_validator_power(&mut ctx, &addr).unwrap(), None);
}

#[test]
fn deposit_key_layout() {
    let depositor = AccAddress { bytes: vec![0xaa, 0xbb, 0xcc] };
    let key = Deposit::key(0x0102, &depositor);
    assert_eq!(key, vec![0x10, 0, 0, 0, 0, 0, 0, 1, 2, 3, 0xaa, 0xbb, 0xcc]);
}

#[test]
fn pairs_and_triplets() {
    let d = AccAddress { bytes: vec![1] };
    let s = ValAddress { bytes: vec![2] };
    let t = ValAddress { bytes: vec![3] };
    let trip = DvvTriplet::new(d.clone(), s.clone(), t.clone());
    assert_eq!(trip.val_dst_addr, t);
    let pair = DvPair::new(s.clone(), d.clone());
    assert_eq!(pair.del_addr, d);
    assert_eq!(ValAddress::from_acc(&d).bytes, vec![1]);
    assert!(AccAddress::try_from_bytes(Vec::new()).is_err());
    assert!(ValAddress::try_from_bytes(vec![0; 256]).is_err());
}

#[test]
fn init_context_events_and_store() {
    let mut ctx = InitContext::new(
        MultiStore::new(1),
        0,
        Timestamp { seconds: 10, nanos: 0 },
        ChainId { id: "gaia".to_string() },
    );
    assert_eq!(ctx.chain_id().id, "gaia");
    assert_eq!(ctx.get_time(), Some(Timestamp { seconds: 10, nanos: 0 }));
    ctx.set(STAKING, b"k".to_vec(), b"v".to_vec());
    assert_eq!(ctx.kv_store(STAKING).get(b"k"), Some(b"v".to_vec()));
    assert_eq!(ctx.delete(STAKING, b"k"), Some(b"v".to_vec()));
    let e = gears::context::Event { kind: "x".to_string(), attributes: Vec::new() };
    ctx.push_event(e.clone());
    ctx.append_events(vec![e.clone(), e]);
    assert_eq!(ctx.events_drain().len(), 3);
    assert!(ctx.events.is_empty());
    let ms = ctx.into_multi_store();
    assert_eq!(ms.get(STAKING, b"k"), None);
}

#[test]
fn coin_wire_forms() {
    let raw = CoinRaw { denom: "uatom".to_string(), amount: "42".to_string() };
    let c = UnsignedCoin::try_from_raw(&raw).unwrap();
    assert_eq!(c.amount, Uint256::from_u128(42));
    assert_eq!(c.to_raw(), raw);
    let bad_denom = CoinRaw { denom: "u".to_string(), amount: "x".to_string() };
    assert_eq!(UnsignedCoin::try_from_raw(&bad_denom), Err(CoinError::Denom));
    let bad_amount = CoinRaw { denom: "uatom".to_string(), amount: "4x".to_string() };
    assert_eq!(UnsignedCoin::try_from_raw(&bad_amount), Err(CoinError::Uint));
    let p = Uint256Proto::try_from_raw(&IntProto { int: "7".to_string() }).unwrap();
    assert_eq!(p.uint, Uint256::from_u128(7));
    assert_eq!(p.to_raw().int, "7");
    assert_eq!(Uint256Proto::try_from_raw(&IntProto { int: String::new() }), Err(CoinError::Uint));
}

#[test]
fn power_index_errors() {
    let keeper = Keeper { store_key: STAKING, power_reduction: 1_000_000 };
    let mut ctx = tx_ctx();
    ctx.set(STAKING, vec![0x23, 1], Vec::new()).unwrap();
    assert_eq!(
        keeper.validators_power_store_vals_vec(&mut ctx),
        Err(KeeperError::InvalidAddress)
    );
    let mut poor = TxContext::new(
        MultiStore::new(1),
        1,
        ChainId { id: "c".to_string() },
        Gas::Finite(10),
        GasConfig::kv(),
    );
    poor.multi_store.set(STAKING, vec![0x23, 1], vec![1]);
    assert!(matches!(
        keeper.validators_power_store_vals_vec(&mut poor),
        Err(KeeperError::Gas(_))
    ));
}

#[test]
fn power_index_keys_sort_by_power() {
    let small = validator(1_000_000).key_by_power_index_key(1_000_000);
    let big = validator(256_000_000).key_by_power_index_key(1_000_000);
    assert!(small < big);
    assert_eq!(&big[1..9], &[0, 0, 0, 0, 0, 0, 1, 0]);
}

#[test]
fn entry_maturity() {
    let entry = UnbondingDelegationEntry {
        creation_height: 1,
        completion_time: Timestamp { seconds: 100, nanos: 5 },
        initial_balance: Uint256::one(),
        balance: Uint256::one(),
    };
    assert!(!entry.is_mature(Timestamp { seconds: 100, nanos: 4 }));
    assert!(entry.is_mature(Timestamp { seconds: 100, nanos: 5 }));
    assert!(entry.is_mature(Timestamp { seconds: 101, nanos: 0 }));
    assert_eq!(entry.try_is_mature(Timestamp { seconds: 99, nanos: 0 }), Some(false));
    assert_eq!(entry.try_is_mature(Timestamp { seconds: 0, nanos: -1 }), None);
    assert_eq!(entry.try_is_mature(Timestamp { seconds: i64::MAX, nanos: 0 }), None);
    let red = RedelegationEntry {
        creation_height: 1,
        completion_time: Timestamp { seconds: 10, nanos: 0 },
        initial_balance: Uint256::one(),
        share_dst: Decimal256::new(Uint256::one()),
    };
    assert!(red.is_mature(Timestamp { seconds: 10, nanos: 0 }));
    assert_eq!(red.try_is_mature(Timestamp { seconds: 9, nanos: 999_999_999 }), Some(false));
}

#[test]
fn non_ascii_numerals_are_not_an_amount() {
    assert_eq!(UnsignedCoin::from_str("\u{0661}\u{0662}uatom"), Err(CoinError::Uint));
    assert_eq!(UnsignedCoin::from_str("1\u{00b2}atom"), Err(CoinError::Uint));
}
