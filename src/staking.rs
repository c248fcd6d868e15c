use vstd::prelude::*;

use crate::address::{
    bech32_text, cons_address_of, valid_address_bytes, AccAddress, ConsAddress, PublicKey,
    ValAddress, VAL_HRP,
};
use crate::bytes::lex_lt;
use crate::context::Timestamp;
use crate::gov::{be_bytes, u64_to_be_bytes};
use crate::num::{decimal_fractional, u256_bound, Decimal256, Uint256};
use crate::sorted_map::copy_bytes;

verus! {

/// Key prefix of the validators-by-power index.
pub const VALIDATORS_BY_POWER_INDEX_KEY: u8 = 0x23;

/// Key prefix of the last validator powers.
pub const LAST_VALIDATOR_POWER_KEY: u8 = 0x11;

/// Key of the last total power.
pub const LAST_TOTAL_POWER_KEY: u8 = 0x12;

/// Tokens per unit of consensus power.
pub const DEFAULT_POWER_REDUCTION: u64 = 1_000_000;

#[derive(Clone, Copy, Debug, PartialEq, Eq, Structural)]
pub struct Pool {
    pub not_bonded_tokens: Uint256,
    pub bonded_tokens: Uint256,
}

/// Last validator power, needed for validator set update logic.
#[derive(Clone, Debug, PartialEq, Eq)]
pub struct LastValidatorPower {
    pub address: ValAddress,
    pub power: i64,
}

/// The bond of one delegator to one validator, in shares.
#[derive(Clone, Debug, PartialEq, Eq)]
pub struct Delegation {
    pub delegator_address: AccAddress,
    pub validator_address: ValAddress,
    pub shares: Decimal256,
}

/// The unbonding entries of one delegator at one validator.
#[derive(Clone, Debug, PartialEq, Eq)]
pub struct UnbondingDelegation {
    pub delegator_address: AccAddress,
    pub validator_address: ValAddress,
    pub entries: Vec<UnbondingDelegationEntry>,
}

#[derive(Clone, Copy, Debug, PartialEq, Eq, Structural)]
pub struct UnbondingDelegationEntry {
    pub creation_height: i64,
    pub completion_time: Timestamp,
    pub initial_balance: Uint256,
    pub balance: Uint256,
}

/// Whether chrono accepts `(secs, nanos)` as a UTC date-time.
pub uninterp spec fn utc_timestamp_valid(secs: i64, nanos: u32) -> bool;

/// Relies on chrono::DateTime::from_timestamp: `Some` exactly for the pairs it accepts, and
/// never for a nanosecond count of 2 * 10^9 or more.
#[verifier::external_body]
fn utc_timestamp_accepted(secs: i64, nanos: u32) -> (r: bool)
    ensures
        r == utc_timestamp_valid(secs, nanos),
        r ==> nanos < 2_000_000_000,
{
    chrono::DateTime::from_timestamp(secs, nanos).is_some()
}

/// A timestamp that reads as a UTC date-time.
pub open spec fn timestamp_valid(t: Timestamp) -> bool {
    t.nanos >= 0 && utc_timestamp_valid(t.seconds, t.nanos as u32)
}

/// `a` is no later than `b`: chrono orders date-times by second, then by nanosecond.
pub open spec fn timestamp_le(a: Timestamp, b: Timestamp) -> bool {
    a.seconds < b.seconds || (a.seconds == b.seconds && a.nanos <= b.nanos)
}

/// Whether `t` reads as a UTC date-time.
pub fn check_timestamp(t: Timestamp) -> (r: bool)
    ensures
        r == timestamp_valid(t),
{
    t.nanos >= 0 && utc_timestamp_accepted(t.seconds, t.nanos as u32)
}

fn timestamp_not_after(a: Timestamp, b: Timestamp) -> (r: bool)
    ensures
        r == timestamp_le(a, b),
{
    a.seconds < b.seconds || (a.seconds == b.seconds && a.nanos <= b.nanos)
}

impl UnbondingDelegationEntry {
    /// The entry has completed by `time`.
    pub fn is_mature(&self, time: Timestamp) -> (r: bool)
        requires
            timestamp_valid(self.completion_time),
            timestamp_valid(time),
        ensures
            r == timestamp_le(self.completion_time, time),
    {
        timestamp_not_after(self.completion_time, time)
    }

    /// `is_mature`, or `None` when a timestamp does not read as a date-time.
    pub fn try_is_mature(&self, time: Timestamp) -> (r: Option<bool>)
        ensures
            r == (if timestamp_valid(self.completion_time) && timestamp_valid(time) {
                Some(timestamp_le(self.completion_time, time))
            } else {
                None
            }),
    {
        if check_timestamp(self.completion_time) && check_timestamp(time) {
            Some(self.is_mature(time))
        } else {
            None
        }
    }
}

/// The redelegating bonds of one delegator from a source to a destination validator.
#[derive(Clone, Debug, PartialEq, Eq)]
pub struct Redelegation {
    pub delegator_address: AccAddress,
    pub validator_src_address: ValAddress,
    pub validator_dst_address: ValAddress,
    pub entries: Vec<RedelegationEntry>,
}

#[derive(Clone, Copy, Debug, PartialEq, Eq, Structural)]
pub struct RedelegationEntry {
    pub creation_height: i64,
    pub completion_time: Timestamp,
    pub initial_balance: Uint256,
    pub share_dst: Decimal256,
}

impl RedelegationEntry {
    /// The entry has completed by `time`.
    pub fn is_mature(&self, time: Timestamp) -> (r: bool)
        requires
            timestamp_valid(self.completion_time),
            timestamp_valid(time),
        ensures
            r == timestamp_le(self.completion_time, time),
    {
        timestamp_not_after(self.completion_time, time)
    }

    /// `is_mature`, or `None` when a timestamp does not read as a date-time.
    pub fn try_is_mature(&self, time: Timestamp) -> (r: Option<bool>)
        ensures
            r == (if timestamp_valid(self.completion_time) && timestamp_valid(time) {
                Some(timestamp_le(self.completion_time, time))
            } else {
                None
            }),
    {
        if check_timestamp(self.completion_time) && check_timestamp(time) {
            Some(self.is_mature(time))
        } else {
            None
        }
    }
}

#[derive(Clone, Debug, PartialEq, Eq)]
pub struct DvvTriplet {
    pub del_addr: AccAddress,
    pub val_src_addr: ValAddress,
    pub val_dst_addr: ValAddress,
}

impl DvvTriplet {
    pub fn new(del_addr: AccAddress, val_src_addr: ValAddress, val_dst_addr: ValAddress) -> (r:
        DvvTriplet)
        ensures
            r.del_addr == del_addr,
            r.val_src_addr == val_src_addr,
            r.val_dst_addr == val_dst_addr,
    {
        DvvTriplet { del_addr, val_src_addr, val_dst_addr }
    }
}

#[derive(Clone, Debug, PartialEq, Eq)]
pub struct DvPair {
    pub val_addr: ValAddress,
    pub del_addr: AccAddress,
}

impl DvPair {
    pub fn new(val_addr: ValAddress, del_addr: AccAddress) -> (r: DvPair)
        ensures
            r.val_addr == val_addr,
            r.del_addr == del_addr,
    {
        DvPair { val_addr, del_addr }
    }
}

#[derive(Clone, Copy, Debug, PartialEq, Eq, Structural)]
pub enum BondStatus {
    Unbonded,
    Unbonding,
    Bonded,
}

impl BondStatus {
    /// The status's name.
    pub fn as_str(&self) -> (r: &'static str)
        ensures
            r@ == (match self {
                BondStatus::Unbonded => "Unbonded"@,
                BondStatus::Unbonding => "Unbonding"@,
                BondStatus::Bonded => "Bonded"@,
            }),
    {
        match self {
            BondStatus::Unbonded => "Unbonded",
            BondStatus::Unbonding => "Unbonding",
            BondStatus::Bonded => "Bonded",
        }
    }
}

#[derive(Clone, Debug, PartialEq, Eq)]
pub struct Description {
    pub moniker: String,
    pub identity: String,
    pub website: String,
    pub security_contact: String,
    pub details: String,
}

#[derive(Clone, Copy, Debug, PartialEq, Eq, Structural)]
pub struct CommissionRates {
    pub rate: Decimal256,
    pub max_rate: Decimal256,
    pub max_change_rate: Decimal256,
}

#[derive(Clone, Copy, Debug, PartialEq, Eq, Structural)]
pub struct Commission {
    pub commission_rates: CommissionRates,
    pub update_time: Timestamp,
}

/// Commission rates are valid when the maximum rate is at most one and both the rate and the
/// maximum change rate are at most the maximum rate.
pub open spec fn valid_rates(c: CommissionRates) -> bool {
    &&& c.max_rate.atomics.value() <= decimal_fractional()
    &&& c.rate.atomics.value() <= c.max_rate.atomics.value()
    &&& c.max_change_rate.atomics.value() <= c.max_rate.atomics.value()
}

#[derive(Clone, Copy, Debug, PartialEq, Eq, Structural)]
pub enum StakingError {
    /// The commission rates are out of bounds.
    InvalidCommission,
    /// The validator holds no tokens to price shares against.
    InsufficientShares,
    /// A product or quotient does not fit, or a divisor is zero.
    Arithmetic,
}

impl Commission {
    pub fn validate(&self) -> (r: Result<(), StakingError>)
        ensures
            r is Ok <==> valid_rates(self.commission_rates),
            r is Err ==> r == Err::<(), StakingError>(StakingError::InvalidCommission),
    {
        let c = self.commission_rates;
        let one = Uint256::from_u128(1_000_000_000_000_000_000);
        if !c.max_rate.atomics.le(&one) || !c.rate.atomics.le(&c.max_rate.atomics)
            || !c.max_change_rate.atomics.le(&c.max_rate.atomics) {
            Err(StakingError::InvalidCommission)
        } else {
            Ok(())
        }
    }
}

/// A validator set update for the consensus engine.
#[derive(Clone, Debug, PartialEq, Eq)]
pub struct ValidatorUpdate {
    pub pub_key: PublicKey,
    pub power: i64,
}

/// The raw form of a validator as stored.
#[derive(Clone, Debug, PartialEq, Eq)]
pub struct ValidatorRaw {
    pub operator_address: String,
    pub delegator_shares: String,
    pub description: Option<Description>,
    pub consensus_pubkey: Vec<u8>,
    pub jailed: bool,
    pub tokens: String,
    pub unbonding_height: i64,
    pub unbonding_time: Option<Timestamp>,
    pub commission: Option<Commission>,
    pub min_self_delegation: String,
    pub status: i32,
}

/// A validator: its bond shares and tokens, whose ratio is its exchange rate.
#[derive(Clone, Debug, PartialEq, Eq)]
pub struct Validator {
    pub operator_address: ValAddress,
    pub delegator_shares: Decimal256,
    pub description: Description,
    pub consensus_pubkey: PublicKey,
    pub jailed: bool,
    pub tokens: Uint256,
    pub unbonding_height: i64,
    pub unbonding_time: Timestamp,
    pub commission: Commission,
    pub min_self_delegation: Uint256,
    pub status: BondStatus,
}

/// `power` read as an unsigned 64-bit divisor.
pub open spec fn power_divisor(power: i64) -> nat {
    if power >= 0 {
        power as nat
    } else {
        (power + 0x1_0000_0000_0000_0000) as nat
    }
}

/// Whether the consensus power of `tokens` at `power` tokens per unit can be computed.
pub open spec fn power_computable(tokens: Uint256, power: i64) -> bool {
    power != 0 && tokens.value() / power_divisor(power) <= i64::MAX
}

/// The shares that `amount` tokens buy from a validator with `shares` share atomics and
/// `tokens` tokens: the shares times the amount taken as atomics, rounded down to 18
/// fractional digits, then divided by the tokens taken as atomics; `None` when a step does
/// not fit or the tokens are zero.
pub open spec fn shares_for(shares: nat, tokens: nat, amount: nat) -> Option<nat> {
    let m = shares * amount / decimal_fractional();
    if tokens == 0 || m >= u256_bound() {
        None
    } else if m * decimal_fractional() / tokens >= u256_bound() {
        None
    } else {
        Some(m * decimal_fractional() / tokens)
    }
}

/// The tokens that `shares` share atomics are worth at a validator with `total_shares` share
/// atomics and `tokens` tokens: the shares times the tokens taken as atomics, rounded down to
/// 18 fractional digits, then divided by the total shares.
pub open spec fn tokens_for(total_shares: nat, tokens: nat, shares: nat) -> Option<nat> {
    let m = shares * tokens / decimal_fractional();
    if m >= u256_bound() || total_shares == 0 {
        None
    } else if m * decimal_fractional() / total_shares >= u256_bound() {
        None
    } else {
        Some(m * decimal_fractional() / total_shares)
    }
}

/// The share atomics issued for a delegation of `amount`: as many as the amount for the first
/// delegation, at the current exchange rate otherwise.
pub open spec fn issued_shares(v: Validator, amount: Uint256) -> Option<nat> {
    if v.delegator_shares.atomics.value() == 0 {
        Some(amount.value())
    } else {
        shares_for(v.delegator_shares.atomics.value(), v.tokens.value(), amount.value())
    }
}

/// The bytes of an `i64`, two's complement, most significant first.
pub open spec fn i64_be_bytes(x: i64) -> Seq<u8> {
    be_bytes(power_divisor(x), 8)
}

proof fn lemma_lex_push_equal_len(a: Seq<u8>, b: Seq<u8>, c: u8, d: u8)
    requires
        a.len() == b.len(),
        lex_lt(a, b),
    ensures
        lex_lt(a.push(c), b.push(d)),
    decreases a.len(),
{
    if a.len() > 0 && a[0] == b[0] {
        lemma_lex_push_equal_len(a.drop_first(), b.drop_first(), c, d);
        assert(a.push(c).drop_first() =~= a.drop_first().push(c));
        assert(b.push(d).drop_first() =~= b.drop_first().push(d));
    }
}

proof fn lemma_lex_push_last(a: Seq<u8>, c: u8, d: u8)
    requires
        c < d,
    ensures
        lex_lt(a.push(c), a.push(d)),
    decreases a.len(),
{
    if a.len() > 0 {
        lemma_lex_push_last(a.drop_first(), c, d);
        assert(a.push(c).drop_first() =~= a.drop_first().push(c));
        assert(a.push(d).drop_first() =~= a.drop_first().push(d));
    }
}

proof fn lemma_lex_extend(a: Seq<u8>, b: Seq<u8>, x: Seq<u8>, y: Seq<u8>)
    requires
        a.len() == b.len(),
        lex_lt(a, b),
    ensures
        lex_lt(a + x, b + y),
    decreases a.len(),
{
    if a.len() > 0 && a[0] == b[0] {
        lemma_lex_extend(a.drop_first(), b.drop_first(), x, y);
        assert((a + x).drop_first() =~= a.drop_first() + x);
        assert((b + y).drop_first() =~= b.drop_first() + y);
    }
}

proof fn lemma_lex_after_common(p: Seq<u8>, a: Seq<u8>, b: Seq<u8>)
    requires
        lex_lt(a, b),
    ensures
        lex_lt(p + a, p + b),
    decreases p.len(),
{
    if p.len() > 0 {
        lemma_lex_after_common(p.drop_first(), a, b);
        assert((p + a).drop_first() =~= p.drop_first() + a);
        assert((p + b).drop_first() =~= p.drop_first() + b);
    }
}

pub open spec fn pow256(n: nat) -> nat
    decreases n,
{
    if n == 0 {
        1
    } else {
        256 * pow256((n - 1) as nat)
    }
}

proof fn lemma_be_bytes_lt(x: nat, y: nat, n: nat)
    requires
        x < y < pow256(n),
    ensures
        lex_lt(be_bytes(x, n), be_bytes(y, n)),
    decreases n,
{
    crate::gov::lemma_be_bytes_len(x, n);
    crate::gov::lemma_be_bytes_len(y, n);
    if n > 0 {
        let n1 = (n - 1) as nat;
        crate::gov::lemma_be_bytes_len(x / 256, n1);
        crate::gov::lemma_be_bytes_len(y / 256, n1);
        assert(x / 256 <= y / 256) by (nonlinear_arith)
            requires
                x < y,
        ;
        assert(y / 256 < pow256(n1)) by (nonlinear_arith)
            requires
                y < pow256(n),
                pow256(n) == 256 * pow256(n1),
        ;
        if x / 256 < y / 256 {
            lemma_be_bytes_lt(x / 256, y / 256, n1);
            lemma_lex_push_equal_len(
                be_bytes(x / 256, n1),
                be_bytes(y / 256, n1),
                (x % 256) as u8,
                (y % 256) as u8,
            );
        } else {
            assert(x % 256 < y % 256) by (nonlinear_arith)
                requires
                    x < y,
                    x / 256 == y / 256,
            ;
            lemma_lex_push_last(be_bytes(x / 256, n1), (x % 256) as u8, (y % 256) as u8);
        }
    } else {
        assert(pow256(0) == 1);
    }
}

/// Power index keys sort by consensus power: of two validators with non-negative powers,
/// the one with less power has the smaller key, whatever their operator addresses.
pub proof fn lemma_power_index_order(p1: i64, p2: i64, a1: Seq<u8>, a2: Seq<u8>)
    requires
        0 <= p1 < p2,
    ensures
        lex_lt(power_index_key(p1, a1), power_index_key(p2, a2)),
{
    reveal_with_fuel(pow256, 9);
    assert(pow256(8) == 0x1_0000_0000_0000_0000);
    lemma_be_bytes_lt(p1 as nat, p2 as nat, 8);
    let b1 = i64_be_bytes(p1);
    let b2 = i64_be_bytes(p2);
    crate::gov::lemma_be_bytes_len(p1 as nat, 8);
    crate::gov::lemma_be_bytes_len(p2 as nat, 8);
    lemma_lex_after_common(seq![VALIDATORS_BY_POWER_INDEX_KEY], b1, b2);
    let t1 = seq![a1.len() as u8] + complement(a1);
    let t2 = seq![a2.len() as u8] + complement(a2);
    lemma_lex_extend(seq![VALIDATORS_BY_POWER_INDEX_KEY] + b1, seq![VALIDATORS_BY_POWER_INDEX_KEY] + b2, t1, t2);
    assert(power_index_key(p1, a1) =~= (seq![VALIDATORS_BY_POWER_INDEX_KEY] + b1) + t1);
    assert(power_index_key(p2, a2) =~= (seq![VALIDATORS_BY_POWER_INDEX_KEY] + b2) + t2);
}

/// Each byte complemented.
pub open spec fn complement(b: Seq<u8>) -> Seq<u8> {
    Seq::new(b.len(), |i: int| (255 - b[i]) as u8)
}

/// The power index key of a validator with consensus power `power` whose operator address
/// reads `addr` in bech32: prefix, power bytes, address length, complemented address.
pub open spec fn power_index_key(power: i64, addr: Seq<u8>) -> Seq<u8> {
    seq![VALIDATORS_BY_POWER_INDEX_KEY] + i64_be_bytes(power) + seq![addr.len() as u8]
        + complement(addr)
}

/// `power` as an unsigned 64-bit number, by two's complement.
fn power_as_u64(power: i64) -> (r: u64)
    ensures
        r == power_divisor(power),
{
    if power >= 0 {
        power as u64
    } else {
        u64::MAX - ((-(power + 1)) as u64)
    }
}

fn i64_to_be_bytes(x: i64) -> (r: Vec<u8>)
    ensures
        r@ == i64_be_bytes(x),
{
    u64_to_be_bytes(power_as_u64(x), 8)
}

fn complement_bytes(b: &Vec<u8>) -> (r: Vec<u8>)
    ensures
        r@ == complement(b@),
{
    let mut out: Vec<u8> = Vec::new();
    let mut i: usize = 0;
    while i < b.len()
        invariant
            i <= b@.len(),
            out@ == complement(b@).subrange(0, i as int),
        decreases b@.len() - i,
    {
        out.push(255 - b[i]);
        proof {
            assert(complement(b@).subrange(0, i + 1) =~= complement(b@).subrange(0, i as int).push(
                (255 - b[i as int]) as u8,
            ));
        }
        i = i + 1;
    }
    proof {
        assert(complement(b@).subrange(0, i as int) =~= complement(b@));
    }
    out
}

fn append_bytes(out: &mut Vec<u8>, b: &Vec<u8>)
    ensures
        final(out)@ == old(out)@ + b@,
{
    let mut i: usize = 0;
    while i < b.len()
        invariant
            i <= b@.len(),
            out@ == old(out)@ + b@.subrange(0, i as int),
        decreases b@.len() - i,
    {
        out.push(b[i]);
        proof {
            assert(old(out)@ + b@.subrange(0, i + 1) =~= (old(out)@ + b@.subrange(0, i as int)).push(
                b[i as int],
            ));
        }
        i = i + 1;
    }
    proof {
        assert(b@.subrange(0, i as int) =~= b@);
    }
}

/// The kind of a key, and its bytes.
pub open spec fn key_view(k: PublicKey) -> (bool, Seq<u8>) {
    match k {
        PublicKey::Ed25519(b) => (true, b@),
        PublicKey::Secp256k1(b) => (false, b@),
    }
}

impl PublicKey {
    /// A copy of the key.
    pub fn duplicate(&self) -> (r: PublicKey)
        ensures
            key_view(r) == key_view(*self),
            cons_address_of(r) == cons_address_of(*self),
    {
        match self {
            PublicKey::Ed25519(v) => PublicKey::Ed25519(copy_bytes(v)),
            PublicKey::Secp256k1(v) => PublicKey::Secp256k1(copy_bytes(v)),
        }
    }
}

impl Validator {
    /// A new unbonded validator with no tokens, no shares, zero commission and a minimum
    /// self-delegation of one.
    pub fn new_with_defaults(
        operator_address: ValAddress,
        consensus_pubkey: PublicKey,
        description: Description,
    ) -> (r: Validator)
        ensures
            r.operator_address == operator_address,
            r.consensus_pubkey == consensus_pubkey,
            r.description == description,
            r.delegator_shares.atomics.value() == 0,
            !r.jailed,
            r.tokens.value() == 0,
            r.unbonding_height == 0,
            r.unbonding_time == (Timestamp { seconds: 0, nanos: 0 }),
            r.commission.commission_rates.rate.atomics.value() == 0,
            r.commission.commission_rates.max_rate.atomics.value() == 0,
            r.commission.commission_rates.max_change_rate.atomics.value() == 0,
            r.commission.update_time == (Timestamp { seconds: 0, nanos: 0 }),
            r.min_self_delegation.value() == 1,
            r.status == BondStatus::Unbonded,
    {
        Validator {
            operator_address,
            delegator_shares: Decimal256::zero(),
            description,
            consensus_pubkey,
            jailed: false,
            tokens: Uint256::zero(),
            unbonding_height: 0,
            unbonding_time: Timestamp { seconds: 0, nanos: 0 },
            commission: Commission {
                commission_rates: CommissionRates {
                    rate: Decimal256::zero(),
                    max_rate: Decimal256::zero(),
                    max_change_rate: Decimal256::zero(),
                },
                update_time: Timestamp { seconds: 0, nanos: 0 },
            },
            min_self_delegation: Uint256::one(),
            status: BondStatus::Unbonded,
        }
    }

    /// The update that announces this validator's consensus power at `power` tokens per unit.
    pub fn abci_validator_update(&self, power: i64) -> (r: ValidatorUpdate)
        requires
            self.status == BondStatus::Bonded ==> power_computable(self.tokens, power),
        ensures
            r.power == (if self.status == BondStatus::Bonded {
                self.tokens.value() / power_divisor(power)
            } else {
                0
            }),
            key_view(r.pub_key) == key_view(self.consensus_pubkey),
    {
        ValidatorUpdate { pub_key: self.consensus_pubkey.duplicate(), power: self.consensus_power(power) }
    }

    /// The update that removes this validator from the set: its power at a reduction of zero,
    /// which is zero for a validator that is not bonded.
    pub fn abci_validator_update_zero(&self) -> (r: ValidatorUpdate)
        requires
            self.status != BondStatus::Bonded,
        ensures
            r.power == 0,
            key_view(r.pub_key) == key_view(self.consensus_pubkey),
    {
        self.abci_validator_update(0)
    }

    /// Sets the commission after checking its rates.
    pub fn set_initial_commission(&mut self, commission: Commission) -> (r: Result<(), StakingError>)
        ensures
            r is Ok <==> valid_rates(commission.commission_rates),
            r is Ok ==> *final(self) == (Validator { commission, ..*old(self) }),
            r is Err ==> *final(self) == *old(self) && r == Err::<(), StakingError>(
                StakingError::InvalidCommission,
            ),
    {
        match commission.validate() {
            Ok(()) => {
                self.commission = commission;
                Ok(())
            },
            Err(e) => Err(e),
        }
    }

    /// Adds delegated tokens and issues the shares they buy.
    pub fn add_tokens_from_del(&mut self, amount: Uint256) -> (r: Decimal256)
        requires
            issued_shares(*old(self), amount) matches Some(s) && old(self).tokens.value()
                + amount.value() < u256_bound() && old(self).delegator_shares.atomics.value() + s
                < u256_bound(),
        ensures
            Some(r.atomics.value()) == issued_shares(*old(self), amount),
            final(self).tokens.value() == old(self).tokens.value() + amount.value(),
            final(self).delegator_shares.atomics.value() == old(self).delegator_shares.atomics.value()
                + r.atomics.value(),
            final(self).operator_address == old(self).operator_address,
            final(self).status == old(self).status,
            final(self).jailed == old(self).jailed,
            final(self).consensus_pubkey == old(self).consensus_pubkey,
    {
        let issued = if self.delegator_shares.is_zero() {
            Decimal256::new(amount)
        } else {
            match self.shares_from_tokens(amount) {
                Ok(d) => d,
                Err(_) => {
                    proof {
                        assert(false);
                    }
                    Decimal256::zero()
                },
            }
        };
        match self.tokens.checked_add(amount) {
            Some(t) => self.tokens = t,
            None => {
                proof {
                    assert(false);
                }
            },
        }
        match self.delegator_shares.checked_add(issued) {
            Some(s) => self.delegator_shares = s,
            None => {
                proof {
                    assert(false);
                }
            },
        }
        issued
    }

    /// The shares that `amount` tokens buy at the current exchange rate.
    pub fn shares_from_tokens(&self, amount: Uint256) -> (r: Result<Decimal256, StakingError>)
        ensures
            self.tokens.value() == 0 ==> r == Err::<Decimal256, StakingError>(
                StakingError::InsufficientShares,
            ),
            self.tokens.value() != 0 ==> match shares_for(
                self.delegator_shares.atomics.value(),
                self.tokens.value(),
                amount.value(),
            ) {
                Some(s) => r matches Ok(d) && d.atomics.value() == s,
                None => r == Err::<Decimal256, StakingError>(StakingError::Arithmetic),
            },
    {
        if self.tokens.is_zero() {
            return Err(StakingError::InsufficientShares);
        }
        let m = match self.delegator_shares.checked_mul(Decimal256::new(amount)) {
            Some(m) => m,
            None => return Err(StakingError::Arithmetic),
        };
        match m.checked_div(Decimal256::new(self.tokens)) {
            Some(q) => Ok(q),
            None => Err(StakingError::Arithmetic),
        }
    }

    /// The tokens that `shares` shares are worth at the current exchange rate.
    pub fn tokens_from_shares(&self, shares: Decimal256) -> (r: Result<Decimal256, StakingError>)
        ensures
            match tokens_for(
                self.delegator_shares.atomics.value(),
                self.tokens.value(),
                shares.atomics.value(),
            ) {
                Some(t) => r matches Ok(d) && d.atomics.value() == t,
                None => r == Err::<Decimal256, StakingError>(StakingError::Arithmetic),
            },
    {
        let m = match shares.checked_mul(Decimal256::new(self.tokens)) {
            Some(m) => m,
            None => return Err(StakingError::Arithmetic),
        };
        let r = m.checked_div(self.delegator_shares);
        proof {
            let t = tokens_for(
                self.delegator_shares.atomics.value(),
                self.tokens.value(),
                shares.atomics.value(),
            );
            if r is None {
                assert(t is None);
            } else {
                assert(t == Some(r->Some_0.atomics.value()));
            }
        }
        match r {
            Some(q) => Ok(q),
            None => Err(StakingError::Arithmetic),
        }
    }

    /// Shares outstanding but no tokens behind them.
    pub fn invalid_ex_rate(&self) -> (r: bool)
        ensures
            r <==> self.tokens.value() == 0 && self.delegator_shares.atomics.value() > 0,
    {
        self.tokens.is_zero() && !self.delegator_shares.is_zero()
    }

    pub fn cons_addr(&self) -> (r: ConsAddress)
        ensures
            r.bytes@ == cons_address_of(self.consensus_pubkey),
            r.bytes@.len() == 20,
            valid_address_bytes(r.bytes@),
    {
        self.consensus_pubkey.cons_address()
    }

    pub fn update_status(&mut self, status: BondStatus)
        ensures
            *final(self) == (Validator { status, ..*old(self) }),
    {
        self.status = status;
    }

    /// Consensus power at the default reduction, zero unless bonded.
    pub fn tendermint_power(&self) -> (r: i64)
        requires
            self.status == BondStatus::Bonded ==> power_computable(
                self.tokens,
                DEFAULT_POWER_REDUCTION as i64,
            ),
        ensures
            r == (if self.status == BondStatus::Bonded {
                self.tokens.value() / (DEFAULT_POWER_REDUCTION as nat)
            } else {
                0
            }),
    {
        if self.status == BondStatus::Bonded {
            return self.potential_tendermint_power();
        }
        0
    }

    /// Consensus power at the default reduction, whatever the status.
    pub fn potential_tendermint_power(&self) -> (r: i64)
        requires
            power_computable(self.tokens, DEFAULT_POWER_REDUCTION as i64),
        ensures
            r == self.tokens.value() / (DEFAULT_POWER_REDUCTION as nat),
    {
        self.tokens_to_consensus_power(DEFAULT_POWER_REDUCTION as i64)
    }

    /// Consensus power at `power` tokens per unit, zero unless bonded.
    pub fn consensus_power(&self, power: i64) -> (r: i64)
        requires
            self.status == BondStatus::Bonded ==> power_computable(self.tokens, power),
        ensures
            r == (if self.status == BondStatus::Bonded {
                self.tokens.value() / power_divisor(power)
            } else {
                0
            }),
    {
        match self.status {
            BondStatus::Bonded => self.potential_consensus_power(power),
            _ => 0,
        }
    }

    pub fn potential_consensus_power(&self, power: i64) -> (r: i64)
        requires
            power_computable(self.tokens, power),
        ensures
            r == self.tokens.value() / power_divisor(power),
    {
        self.tokens_to_consensus_power(power)
    }

    /// The tokens divided by `power`, read as an unsigned divisor.
    pub fn tokens_to_consensus_power(&self, power: i64) -> (r: i64)
        requires
            power_computable(self.tokens, power),
        ensures
            r == self.tokens.value() / power_divisor(power),
    {
        let divisor = Uint256::from_u128(power_as_u64(power) as u128);
        let amount = match self.tokens.checked_div(divisor) {
            Some(q) => q,
            None => {
                proof {
                    assert(false);
                }
                Uint256::zero()
            },
        };
        match amount.to_u64() {
            Some(v) => v as i64,
            None => {
                proof {
                    assert(false);
                }
                0
            },
        }
    }

    /// The key of this validator in the power index: the prefix, the consensus power as
    /// eight big-endian bytes, the length of the operator's bech32 text, and that text
    /// with every byte complemented.
    pub fn key_by_power_index_key(&self, power_reduction: i64) -> (r: Vec<u8>)
        requires
            power_computable(self.tokens, power_reduction),
        ensures
            r@ == power_index_key(
                (self.tokens.value() / power_divisor(power_reduction)) as i64,
                bech32_text(VAL_HRP@, self.operator_address.bytes@),
            ),
    {
        let consensus_power = self.tokens_to_consensus_power(power_reduction);
        let power_bytes = i64_to_be_bytes(consensus_power);
        let addr = self.operator_address.bech32_bytes();
        let inverted = complement_bytes(&addr);
        let mut key: Vec<u8> = Vec::new();
        key.push(VALIDATORS_BY_POWER_INDEX_KEY);
        append_bytes(&mut key, &power_bytes);
        key.push(inverted.len() as u8);
        append_bytes(&mut key, &inverted);
        proof {
            assert(key@ =~= power_index_key(consensus_power, addr@));
        }
        key
    }
}

} // verus!
