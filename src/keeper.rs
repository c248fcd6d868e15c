use vstd::prelude::*;
use vstd::utf8::encode_utf8;

use crate::address::{bech32_text, prefix_len, valid_address_bytes, ValAddress, VAL_HRP};
use crate::context::{delete_outcome, set_outcome, TxContext};
use crate::gas::Gas;
use crate::gas_store::{iter_cost, metered, GasConfig, GasStoreErrors};
use crate::multi::StoreKey;
use crate::num::{decimal_digits, Uint256};
use crate::sorted_map::{
    copy_bytes, entries_view, has_prefix, keys_sorted, represents, restrict_prefix, restrict_range,
    KeyRange,
};
use crate::staking::{
    pow256, power_computable, power_divisor, power_index_key, LastValidatorPower, Validator,
    LAST_TOTAL_POWER_KEY, LAST_VALIDATOR_POWER_KEY, VALIDATORS_BY_POWER_INDEX_KEY,
};

verus! {

/// A persisted value that does not decode to what it must be. The store no longer holds
/// what every node agrees on, so a node that meets this stops instead of going on.
#[derive(Clone, Copy, Debug, PartialEq, Eq, Structural)]
pub struct StateCorruption;

/// Why reading the power index failed.
#[derive(Clone, Copy, Debug, PartialEq, Eq, Structural)]
pub enum KeeperError {
    Gas(GasStoreErrors),
    /// An index entry holds no valid operator address.
    InvalidAddress,
}

/// The protobuf varint of `n`: seven bits per byte, least significant group first, the top
/// bit set on every byte but the last.
pub open spec fn varint(n: nat) -> Seq<u8>
    decreases n,
{
    if n < 128 {
        seq![n as u8]
    } else {
        seq![(n % 128 + 128) as u8] + varint(n / 128)
    }
}

/// The protobuf encoding of a message whose only field, numbered `tag`, is the string `s`:
/// the key (field number and length-delimited wire type), the byte length, the UTF-8 bytes.
pub open spec fn string_field_encoding(tag: u32, s: Seq<char>) -> Seq<u8> {
    varint(tag as nat * 8 + 2) + varint(encode_utf8(s).len()) + encode_utf8(s)
}

/// The protobuf encoding of `google.protobuf.Int64Value` holding `v`: nothing for zero,
/// otherwise field 1 as a varint of the two's-complement value.
pub open spec fn int64_value_encoding(v: i64) -> Seq<u8> {
    if v == 0 {
        Seq::empty()
    } else {
        seq![0x08u8] + varint(power_divisor(v))
    }
}

/// Relies on prost::encoding::string::encode: key, length, then the string's bytes. Field
/// numbers run from 1 to 2^29 - 1; prost asserts that range.
#[verifier::external_body]
fn encode_string_field(tag: u32, s: &String) -> (r: Vec<u8>)
    requires
        1 <= tag <= 0x1FFF_FFFF,
    ensures
        r@ == string_field_encoding(tag, s@),
{
    let mut buf: Vec<u8> = Vec::new();
    prost::encoding::string::encode(tag, s, &mut buf);
    buf
}

/// Relies on prost's Message impl for i64 (`google.protobuf.Int64Value`): nothing for zero,
/// else key 0x08 and the varint of the value as a `u64`.
#[verifier::external_body]
fn encode_i64(v: i64) -> (r: Vec<u8>)
    ensures
        r@ == int64_value_encoding(v),
{
    prost::Message::encode_to_vec(&v)
}

/// The value that prost decodes from `b` as `google.protobuf.Int64Value`, if it decodes.
pub uninterp spec fn int64_value_decoding(b: Seq<u8>) -> Option<i64>;

/// Relies on prost's Message impl for i64 (`google.protobuf.Int64Value`): the outcome
/// depends on the bytes alone, and the empty input decodes to zero.
#[verifier::external_body]
fn decode_i64(b: &[u8]) -> (r: Option<i64>)
    ensures
        r == int64_value_decoding(b@),
        b@.len() == 0 ==> r == Some(0i64),
{
    <i64 as prost::Message>::decode(b).ok()
}

/// Big-endian value of a byte string.
pub open spec fn be_value(s: Seq<u8>) -> nat
    decreases s.len(),
{
    if s.len() == 0 {
        0
    } else {
        be_value(s.drop_last()) * 256 + s.last() as nat
    }
}

proof fn lemma_pow256_mono(a: nat, b: nat)
    requires
        a <= b,
    ensures
        pow256(a) <= pow256(b),
    decreases b,
{
    if a < b {
        lemma_pow256_mono(a, (b - 1) as nat);
    }
}

proof fn lemma_pow256_16()
    ensures
        pow256(16) == u128::MAX as nat + 1,
{
    reveal_with_fuel(pow256, 17);
}

/// Reads 16 bytes of `b` from `start` as a big-endian number.
fn u128_from_be(b: &Vec<u8>, start: usize) -> (r: u128)
    requires
        start + 16 <= b@.len(),
    ensures
        r == be_value(b@.subrange(start as int, start + 16)),
{
    let n = b.len();
    let mut acc: u128 = 0;
    let mut i: usize = 0;
    proof {
        assert(b@.subrange(start as int, start as int) =~= Seq::<u8>::empty());
    }
    while i < 16
        invariant
            start + 16 <= b@.len(),
            n == b@.len(),
            i <= 16,
            acc == be_value(b@.subrange(start as int, start + i)),
            acc < pow256(i as nat),
        decreases 16 - i,
    {
        let byte = b[start + i];
        proof {
            lemma_pow256_mono((i + 1) as nat, 16);
            lemma_pow256_16();
            assert(pow256((i + 1) as nat) == 256 * pow256(i as nat));
            assert(acc * 256 + 255 < pow256((i + 1) as nat)) by (nonlinear_arith)
                requires
                    acc < pow256(i as nat),
                    pow256((i + 1) as nat) == 256 * pow256(i as nat),
            ;
            assert(acc * 256 + byte <= u128::MAX);
            assert(b@.subrange(start as int, start + i + 1).drop_last() =~= b@.subrange(
                start as int,
                start + i,
            ));
        }
        acc = acc * 256 + byte as u128;
        i = i + 1;
    }
    acc
}

/// Reading the power index from entry `i` on, at a meter that has consumed `c` of `limit`:
/// each entry is charged `iter_cost` at once, then its value must be an address. Gives the
/// consumed total at the end, and the addresses read or the first failure.
pub open spec fn index_read(
    c: u64,
    limit: Gas,
    cfg: GasConfig,
    es: Seq<(Seq<u8>, Seq<u8>)>,
    i: int,
) -> (nat, Result<Seq<Seq<u8>>, KeeperError>)
    decreases es.len() - i,
{
    if i < 0 || i >= es.len() {
        (c as nat, Ok(Seq::empty()))
    } else {
        let m = metered(c, limit, iter_cost(cfg, es[i].0.len(), es[i].1.len()));
        match m.1 {
            Err(g) => (m.0, Err(KeeperError::Gas(g))),
            Ok(_) => if !valid_address_bytes(es[i].1) {
                (m.0, Err(KeeperError::InvalidAddress))
            } else {
                prepend(seq![es[i].1], index_read(m.0 as u64, limit, cfg, es, i + 1))
            },
        }
    }
}

/// The charges of reading entries `i..` of `es` one by one.
pub open spec fn iter_total(cfg: GasConfig, es: Seq<(Seq<u8>, Seq<u8>)>, i: int) -> int
    decreases es.len() - i,
{
    if i < 0 || i >= es.len() {
        0
    } else {
        iter_cost(cfg, es[i].0.len(), es[i].1.len()) + iter_total(cfg, es, i + 1)
    }
}

/// The values of entries `i..` of `es`.
pub open spec fn values_from(es: Seq<(Seq<u8>, Seq<u8>)>, i: int) -> Seq<Seq<u8>> {
    Seq::new((es.len() - i) as nat, |j: int| es[i + j].1)
}

proof fn lemma_iter_cost_nonneg(cfg: GasConfig, es: Seq<(Seq<u8>, Seq<u8>)>, i: int)
    ensures
        iter_total(cfg, es, i) >= 0,
    decreases es.len() - i,
{
    if 0 <= i < es.len() {
        assert(cfg.read_cost_per_byte * (es[i].0.len() + es[i].1.len()) >= 0) by (nonlinear_arith);
        lemma_iter_cost_nonneg(cfg, es, i + 1);
    }
}

/// When every value is an address and the meter can pay for every entry, reading the power
/// index from entry `i` yields every value, in order, and charges exactly their total.
pub proof fn lemma_index_read_complete(
    c: u64,
    limit: Gas,
    cfg: GasConfig,
    es: Seq<(Seq<u8>, Seq<u8>)>,
    i: int,
)
    requires
        0 <= i <= es.len(),
        forall|j: int| i <= j < es.len() ==> valid_address_bytes(#[trigger] es[j].1),
        c + iter_total(cfg, es, i) <= match limit {
            Gas::Finite(l) => l as int,
            Gas::Infinite => u64::MAX as int,
        },
    ensures
        index_read(c, limit, cfg, es, i) == (
            (c + iter_total(cfg, es, i)) as nat,
            Ok::<Seq<Seq<u8>>, KeeperError>(values_from(es, i)),
        ),
    decreases es.len() - i,
{
    if i == es.len() {
        assert(values_from(es, i) =~= Seq::<Seq<u8>>::empty());
    } else {
        let cost = iter_cost(cfg, es[i].0.len(), es[i].1.len());
        assert(cfg.read_cost_per_byte * (es[i].0.len() + es[i].1.len()) >= 0) by (nonlinear_arith);
        lemma_iter_cost_nonneg(cfg, es, i + 1);
        let c2 = (c + cost) as u64;
        lemma_index_read_complete(c2, limit, cfg, es, i + 1);
        assert(values_from(es, i) =~= seq![es[i].1] + values_from(es, i + 1));
    }
}

/// `x` with `done` put in front of the addresses it read.
pub open spec fn prepend(
    done: Seq<Seq<u8>>,
    x: (nat, Result<Seq<Seq<u8>>, KeeperError>),
) -> (nat, Result<Seq<Seq<u8>>, KeeperError>) {
    (
        x.0,
        match x.1 {
            Ok(s) => Ok(done + s),
            Err(e) => Err(e),
        },
    )
}

/// An entry of the last-power index reads back: its key holds a length-prefixed address
/// after the prefix byte, and its value decodes to a power of at least zero.
pub open spec fn power_entry_ok(e: (Seq<u8>, Seq<u8>)) -> bool {
    &&& e.0.len() >= 1
    &&& exists|x: Seq<u8>| valid_address_bytes(x) && prefix_len(x) == e.0.drop_first()
    &&& int64_value_decoding(e.1) matches Some(p) && p >= 0
}

/// The staking keeper: its store, and the tokens per unit of consensus power.
pub struct Keeper {
    pub store_key: StoreKey,
    pub power_reduction: i64,
}

pub open spec fn key_of(prefix: u8, rest: Seq<u8>) -> Seq<u8> {
    seq![prefix] + rest
}

fn prefixed(prefix: u8, rest: &Vec<u8>) -> (r: Vec<u8>)
    ensures
        r@ == key_of(prefix, rest@),
{
    let mut out: Vec<u8> = Vec::new();
    out.push(prefix);
    let mut i: usize = 0;
    while i < rest.len()
        invariant
            i <= rest@.len(),
            out@ == seq![prefix] + rest@.subrange(0, i as int),
        decreases rest@.len() - i,
    {
        out.push(rest[i]);
        proof {
            assert(seq![prefix] + rest@.subrange(0, i + 1) =~= (seq![prefix] + rest@.subrange(
                0,
                i as int,
            )).push(rest[i as int]));
        }
        i = i + 1;
    }
    proof {
        assert(rest@.subrange(0, i as int) =~= rest@);
    }
    out
}

impl Keeper {
    pub open spec fn ready(&self, ctx: TxContext) -> bool {
        ctx.wf() && ctx.multi_store.has_key(self.store_key)
    }

    /// Loads the last total power, stored as 32 big-endian bytes. Note that
    /// `set_last_total_power` writes the protobuf form instead, so a value written there reads
    /// back here as corrupt unless it is exactly 32 bytes long.
    pub fn last_total_power(&self, ctx: &TxContext) -> (r: Result<Option<Uint256>, StateCorruption>)
        requires
            self.ready(*ctx),
        ensures
            ({
                let view = ctx.view_of(self.store_key);
                let k = seq![LAST_TOTAL_POWER_KEY];
                &&& !view.contains_key(k) ==> r == Ok::<Option<Uint256>, StateCorruption>(None)
                &&& view.contains_key(k) && view[k].len() != 32 ==> r is Err
                &&& view.contains_key(k) && view[k].len() == 32 ==> (r matches Ok(Some(p))
                    && p.hi == be_value(view[k].subrange(0, 16)) && p.lo == be_value(
                    view[k].subrange(16, 32),
                ))
            }),
    {
        let mut k: Vec<u8> = Vec::new();
        k.push(LAST_TOTAL_POWER_KEY);
        proof {
            assert(k@ =~= seq![LAST_TOTAL_POWER_KEY]);
        }
        match ctx.multi_store.get(self.store_key, k.as_slice()) {
            None => Ok(None),
            Some(bytes) => {
                if bytes.len() != 32 {
                    return Err(StateCorruption);
                }
                let hi = u128_from_be(&bytes, 0);
                let lo = u128_from_be(&bytes, 16);
                Ok(Some(Uint256 { hi, lo }))
            },
        }
    }

    /// Stores the last total power in its protobuf form: field 1, the decimal digits.
    pub fn set_last_total_power(&self, ctx: &mut TxContext, last_total_power: Uint256) -> (r:
        Result<(), GasStoreErrors>)
        requires
            self.ready(*old(ctx)),
        ensures
            set_outcome(
                *old(ctx),
                *final(ctx),
                self.store_key,
                seq![LAST_TOTAL_POWER_KEY],
                string_field_encoding(1, decimal_digits(last_total_power.value())),
                r,
            ),
    {
        let mut k: Vec<u8> = Vec::new();
        k.push(LAST_TOTAL_POWER_KEY);
        proof {
            assert(k@ =~= seq![LAST_TOTAL_POWER_KEY]);
        }
        let digits = last_total_power.to_string();
        let val = encode_string_field(1, &digits);
        ctx.set(self.store_key, k, val)
    }

    /// The operator addresses of the power index, in key order; each entry is charged for as
    /// it is read (see `index_read`).
    pub fn validators_power_store_vals_vec(&self, ctx: &mut TxContext) -> (r: Result<
        Vec<ValAddress>,
        KeeperError,
    >)
        requires
            self.ready(*old(ctx)),
        ensures
            final(ctx).wf(),
            final(ctx).multi_store == old(ctx).multi_store,
            final(ctx).events == old(ctx).events,
            final(ctx).gas_config == old(ctx).gas_config,
            final(ctx).gas_meter.limit == old(ctx).gas_meter.limit,
            exists|es: Seq<(Vec<u8>, Vec<u8>)>|
                #![trigger entries_view(es)]
                keys_sorted(entries_view(es)) && represents(
                    entries_view(es),
                    restrict_prefix(
                        old(ctx).view_of(self.store_key),
                        seq![VALIDATORS_BY_POWER_INDEX_KEY],
                    ),
                ) && ({
                    let out = index_read(
                        old(ctx).gas_meter.consumed,
                        old(ctx).gas_meter.limit,
                        old(ctx).gas_config,
                        entries_view(es),
                        0,
                    );
                    &&& final(ctx).gas_meter.consumed == out.0
                    &&& match out.1 {
                        Ok(s) => r matches Ok(addrs) && addrs@.len() == s.len() && forall|i: int|
                            0 <= i < s.len() ==> (#[trigger] addrs@[i]).bytes@ == s[i],
                        Err(e) => r == Err::<Vec<ValAddress>, KeeperError>(e),
                    }
                }),
    {
        let mut p: Vec<u8> = Vec::new();
        p.push(VALIDATORS_BY_POWER_INDEX_KEY);
        proof {
            assert(p@ =~= seq![VALIDATORS_BY_POWER_INDEX_KEY]);
        }
        let range = KeyRange::with_prefix(p);
        let mut it = ctx.range(self.store_key, &range);
        let ghost es = it.entries@;
        let ghost c0 = ctx.gas_meter.consumed;
        let ghost lim = ctx.gas_meter.limit;
        let ghost cfg = ctx.gas_config;
        let ghost done: Seq<Seq<u8>> = Seq::empty();
        let mut res: Vec<ValAddress> = Vec::new();
        proof {
            assert(restrict_range(ctx.view_of(self.store_key), range) =~= restrict_prefix(
                ctx.view_of(self.store_key),
                seq![VALIDATORS_BY_POWER_INDEX_KEY],
            ));
            let x = index_read(c0, lim, cfg, entries_view(es), 0);
            if x.1 is Ok {
                assert(done + x.1->Ok_0 =~= x.1->Ok_0);
            }
        }
        while it.pos < it.entries.len()
            invariant
                ctx.wf(),
                ctx.multi_store == old(ctx).multi_store,
                ctx.events == old(ctx).events,
                ctx.gas_config == cfg,
                ctx.gas_meter.limit == lim,
                cfg == old(ctx).gas_config,
                lim == old(ctx).gas_meter.limit,
                c0 == old(ctx).gas_meter.consumed,
                keys_sorted(entries_view(es)),
                represents(
                    entries_view(es),
                    restrict_prefix(
                        old(ctx).view_of(self.store_key),
                        seq![VALIDATORS_BY_POWER_INDEX_KEY],
                    ),
                ),
                it.entries@ == es,
                it.pos <= es.len(),
                res@.len() == it.pos,
                done.len() == it.pos,
                forall|i: int| 0 <= i < it.pos ==> (#[trigger] res@[i]).bytes@ == done[i],
                index_read(c0, lim, cfg, entries_view(es), 0) == prepend(
                    done,
                    index_read(ctx.gas_meter.consumed, lim, cfg, entries_view(es), it.pos as int),
                ),
            decreases es.len() - it.pos,
        {
            let ghost pos = it.pos as int;
            let ghost before = ctx.gas_meter.consumed;
            let ghost e = entries_view(es)[pos];
            match ctx.range_next(&mut it) {
                None => {
                    proof {
                        assert(false);
                    }
                    return Ok(res);
                },
                Some(Err(g)) => {
                    return Err(KeeperError::Gas(g));
                },
                Some(Ok((_k, v))) => {
                    match ValAddress::try_from_bytes(v) {
                        Ok(a) => {
                            proof {
                                let rest = index_read(
                                    ctx.gas_meter.consumed,
                                    lim,
                                    cfg,
                                    entries_view(es),
                                    pos + 1,
                                );
                                if rest.1 is Ok {
                                    let s = rest.1->Ok_0;
                                    assert(done + (seq![e.1] + s) =~= done.push(e.1) + s);
                                }
                                done = done.push(e.1);
                            }
                            res.push(a);
                        },
                        Err(_) => return Err(KeeperError::InvalidAddress),
                    }
                },
            }
        }
        proof {
            assert(done + Seq::<Seq<u8>>::empty() =~= done);
        }
        Ok(res)
    }

    /// The last validator powers by operator address, in key order.
    pub fn last_validators_by_addr(&self, ctx: &TxContext) -> (r: Result<
        Vec<(ValAddress, u64)>,
        StateCorruption,
    >)
        requires
            self.ready(*ctx),
        ensures
            r matches Ok(list) ==> exists|es: Seq<(Vec<u8>, Vec<u8>)>|
                keys_sorted(#[trigger] entries_view(es)) && represents(
                    entries_view(es),
                    restrict_prefix(ctx.view_of(self.store_key), seq![LAST_VALIDATOR_POWER_KEY]),
                ) && list@.len() == es.len() && forall|i: int|
                    0 <= i < es.len() ==> key_of(
                        LAST_VALIDATOR_POWER_KEY,
                        prefix_len((#[trigger] list@[i]).0.bytes@),
                    ) == entries_view(es)[i].0 && int64_value_decoding(entries_view(es)[i].1)
                        == Some(list@[i].1 as i64) && list@[i].0.wf(),
            exists|es: Seq<(Vec<u8>, Vec<u8>)>|
                keys_sorted(#[trigger] entries_view(es)) && represents(
                    entries_view(es),
                    restrict_prefix(ctx.view_of(self.store_key), seq![LAST_VALIDATOR_POWER_KEY]),
                ) && (r is Ok <==> forall|i: int|
                    0 <= i < es.len() ==> power_entry_ok(#[trigger] entries_view(es)[i])),
    {
        let mut p: Vec<u8> = Vec::new();
        p.push(LAST_VALIDATOR_POWER_KEY);
        proof {
            assert(p@ =~= seq![LAST_VALIDATOR_POWER_KEY]);
        }
        let range = KeyRange::with_prefix(p);
        let es = ctx.multi_store.range(self.store_key, &range);
        proof {
            assert(restrict_range(ctx.view_of(self.store_key), range) =~= restrict_prefix(
                ctx.view_of(self.store_key),
                seq![LAST_VALIDATOR_POWER_KEY],
            ));
        }
        let mut last: Vec<(ValAddress, u64)> = Vec::new();
        let mut i: usize = 0;
        while i < es.len()
            invariant
                i <= es@.len(),
                last@.len() == i,
                keys_sorted(entries_view(es@)),
                represents(
                    entries_view(es@),
                    restrict_prefix(ctx.view_of(self.store_key), seq![LAST_VALIDATOR_POWER_KEY]),
                ),
                forall|j: int|
                    0 <= j < i ==> key_of(
                        LAST_VALIDATOR_POWER_KEY,
                        prefix_len((#[trigger] last@[j]).0.bytes@),
                    ) == entries_view(es@)[j].0 && int64_value_decoding(entries_view(es@)[j].1)
                        == Some(last@[j].1 as i64) && last@[j].0.wf(),
                forall|j: int| 0 <= j < i ==> power_entry_ok(#[trigger] entries_view(es@)[j]),
            decreases es@.len() - i,
        {
            let k = &es[i].0;
            let ghost e = entries_view(es@)[i as int];
            proof {
                assert(e.0 == k@);
            }
            if k.len() == 0 {
                proof {
                    assert(!power_entry_ok(entries_view(es@)[i as int]));
                }
                return Err(StateCorruption);
            }
            let mut rest: Vec<u8> = Vec::new();
            let mut j: usize = 1;
            while j < k.len()
                invariant
                    1 <= j <= k@.len(),
                    rest@ == k@.subrange(1, j as int),
                decreases k@.len() - j,
            {
                rest.push(k[j]);
                proof {
                    assert(k@.subrange(1, j + 1) =~= k@.subrange(1, j as int).push(k[j as int]));
                }
                j = j + 1;
            }
            proof {
                assert(rest@ =~= e.0.drop_first());
                assert(e.1 == es@[i as int].1@);
            }
            let addr = match ValAddress::try_from_prefix_len_bytes(&rest) {
                Ok(a) => a,
                Err(_) => {
                    proof {
                        assert(!power_entry_ok(entries_view(es@)[i as int]));
                    }
                    return Err(StateCorruption);
                },
            };
            let power = match decode_i64(es[i].1.as_slice()) {
                Some(v) => v,
                None => {
                    proof {
                        assert(!power_entry_ok(entries_view(es@)[i as int]));
                    }
                    return Err(StateCorruption);
                },
            };
            if power < 0 {
                proof {
                    assert(!power_entry_ok(entries_view(es@)[i as int]));
                }
                return Err(StateCorruption);
            }
            proof {
                let e = entries_view(es@)[i as int];
                assert(e.0 == k@);
                assert(e.1 == es@[i as int].1@);
                assert(restrict_prefix(ctx.view_of(self.store_key), seq![LAST_VALIDATOR_POWER_KEY]).contains_key(
                    entries_view(es@)[i as int].0,
                ));
                assert(has_prefix(e.0, seq![LAST_VALIDATOR_POWER_KEY]));
                assert(e.0.subrange(0, 1)[0] == e.0[0]);
                assert(e.0[0] == LAST_VALIDATOR_POWER_KEY);
                assert(key_of(LAST_VALIDATOR_POWER_KEY, rest@) =~= k@);
                assert(valid_address_bytes(addr.bytes@) && prefix_len(addr.bytes@) == e.0.drop_first());
                assert(power_entry_ok(entries_view(es@)[i as int]));
            }
            last.push((addr, power as u64));
            i = i + 1;
        }
        Ok(last)
    }

    /// Indexes the validator by power, unless it is jailed.
    pub fn set_validator_by_power_index(&self, ctx: &mut TxContext, validator: &Validator) -> (r:
        Result<(), GasStoreErrors>)
        requires
            self.ready(*old(ctx)),
            !validator.jailed ==> power_computable(validator.tokens, self.power_reduction),
        ensures
            validator.jailed ==> r is Ok && *final(ctx) == *old(ctx),
            !validator.jailed ==> set_outcome(
                *old(ctx),
                *final(ctx),
                self.store_key,
                power_index_key(
                    (validator.tokens.value() / power_divisor(self.power_reduction)) as i64,
                    bech32_text(VAL_HRP@, validator.operator_address.bytes@),
                ),
                validator.operator_address.bytes@,
                r,
            ),
    {
        if validator.jailed {
            return Ok(());
        }
        self.set_new_validator_by_power_index(ctx, validator)
    }

    /// Indexes the validator by power.
    pub fn set_new_validator_by_power_index(&self, ctx: &mut TxContext, validator: &Validator) -> (r:
        Result<(), GasStoreErrors>)
        requires
            self.ready(*old(ctx)),
            power_computable(validator.tokens, self.power_reduction),
        ensures
            set_outcome(
                *old(ctx),
                *final(ctx),
                self.store_key,
                power_index_key(
                    (validator.tokens.value() / power_divisor(self.power_reduction)) as i64,
                    bech32_text(VAL_HRP@, validator.operator_address.bytes@),
                ),
                validator.operator_address.bytes@,
                r,
            ),
    {
        let key = validator.key_by_power_index_key(self.power_reduction);
        let val = copy_bytes(&validator.operator_address.bytes);
        ctx.set(self.store_key, key, val)
    }

    /// Removes the validator from the power index, returning the entry it had.
    pub fn delete_validator_by_power_index(&self, ctx: &mut TxContext, validator: &Validator) -> (r:
        Result<Option<Vec<u8>>, GasStoreErrors>)
        requires
            self.ready(*old(ctx)),
            power_computable(validator.tokens, self.power_reduction),
        ensures
            ({
                let k = power_index_key(
                    (validator.tokens.value() / power_divisor(self.power_reduction)) as i64,
                    bech32_text(VAL_HRP@, validator.operator_address.bytes@),
                );
                exists|d: Result<Vec<u8>, GasStoreErrors>| #[trigger]
                    delete_outcome(*old(ctx), *final(ctx), self.store_key, k, d) && match d {
                        Ok(v) => r matches Ok(Some(w)) && w@ == v@,
                        Err(GasStoreErrors::NotFound) => r == Ok::<
                            Option<Vec<u8>>,
                            GasStoreErrors,
                        >(None),
                        Err(e) => r == Err::<Option<Vec<u8>>, GasStoreErrors>(e),
                    }
            }),
    {
        let key = validator.key_by_power_index_key(self.power_reduction);
        let d = ctx.delete(self.store_key, key.as_slice());
        proof {
            assert(delete_outcome(*old(ctx), *ctx, self.store_key, key@, d));
        }
        match d {
            Ok(v) => Ok(Some(v)),
            Err(GasStoreErrors::NotFound) => Ok(None),
            Err(e) => Err(e),
        }
    }

    /// Records a validator's last power under its length-prefixed address.
    pub fn set_last_validator_power(&self, ctx: &mut TxContext, validator: &LastValidatorPower) -> (r:
        Result<(), GasStoreErrors>)
        requires
            self.ready(*old(ctx)),
            validator.address.wf(),
        ensures
            set_outcome(
                *old(ctx),
                *final(ctx),
                self.store_key,
                key_of(LAST_VALIDATOR_POWER_KEY, prefix_len(validator.address.bytes@)),
                int64_value_encoding(validator.power),
                r,
            ),
    {
        let addr = validator.address.prefix_len_bytes();
        let key = prefixed(LAST_VALIDATOR_POWER_KEY, &addr);
        let value = encode_i64(validator.power);
        ctx.set(self.store_key, key, value)
    }

    /// Removes a validator's last power, returning the entry it had.
    pub fn delete_last_validator_power(&self, ctx: &mut TxContext, validator: &ValAddress) -> (r:
        Result<Option<Vec<u8>>, GasStoreErrors>)
        requires
            self.ready(*old(ctx)),
            validator.wf(),
        ensures
            exists|d: Result<Vec<u8>, GasStoreErrors>| #[trigger]
                delete_outcome(
                    *old(ctx),
                    *final(ctx),
                    self.store_key,
                    key_of(LAST_VALIDATOR_POWER_KEY, prefix_len(validator.bytes@)),
                    d,
                ) && match d {
                    Ok(v) => r matches Ok(Some(w)) && w@ == v@,
                    Err(GasStoreErrors::NotFound) => r == Ok::<Option<Vec<u8>>, GasStoreErrors>(
                        None,
                    ),
                    Err(e) => r == Err::<Option<Vec<u8>>, GasStoreErrors>(e),
                },
    {
        let addr = validator.prefix_len_bytes();
        let key = prefixed(LAST_VALIDATOR_POWER_KEY, &addr);
        let d = ctx.delete(self.store_key, key.as_slice());
        proof {
            assert(delete_outcome(*old(ctx), *ctx, self.store_key, key@, d));
        }
        match d {
            Ok(v) => Ok(Some(v)),
            Err(GasStoreErrors::NotFound) => Ok(None),
            Err(e) => Err(e),
        }
    }
}

} // verus!
