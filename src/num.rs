use vstd::prelude::*;

verus! {

pub open spec fn two_pow_128() -> nat {
    u128::MAX as nat + 1
}

/// One more than the largest 256-bit unsigned integer.
pub open spec fn u256_bound() -> nat {
    two_pow_128() * two_pow_128()
}

/// 10^18: the scale of a 256-bit fixed-point decimal.
pub open spec fn decimal_fractional() -> nat {
    1_000_000_000_000_000_000
}

/// The decimal digits of `n`, most significant first, without leading zeros.
pub open spec fn decimal_digits(n: nat) -> Seq<char>
    decreases n,
{
    if n < 10 {
        seq![digit_char(n)]
    } else {
        decimal_digits(n / 10).push(digit_char(n % 10))
    }
}

pub open spec fn digit_char(d: nat) -> char {
    (('0' as u8) + (d as u8)) as char
}

pub open spec fn is_decimal_digit(c: char) -> bool {
    '0' <= c && c <= '9'
}

/// The value of a string of decimal digits.
pub open spec fn decimal_value(s: Seq<char>) -> nat
    decreases s.len(),
{
    if s.len() == 0 {
        0
    } else {
        decimal_value(s.drop_last()) * 10 + ((s.last() as u32) - ('0' as u32)) as nat
    }
}

/// A 256-bit unsigned integer, as its high and low 128-bit halves.
#[derive(Clone, Copy, Debug, PartialEq, Eq, Structural)]
pub struct Uint256 {
    pub hi: u128,
    pub lo: u128,
}

impl Uint256 {
    pub open spec fn value(&self) -> nat {
        self.hi as nat * two_pow_128() + self.lo as nat
    }

    pub fn zero() -> (r: Uint256)
        ensures
            r.value() == 0,
    {
        Uint256 { hi: 0, lo: 0 }
    }

    pub fn one() -> (r: Uint256)
        ensures
            r.value() == 1,
    {
        Uint256 { hi: 0, lo: 1 }
    }

    pub fn from_u128(x: u128) -> (r: Uint256)
        ensures
            r.value() == x,
    {
        Uint256 { hi: 0, lo: x }
    }

    pub fn is_zero(&self) -> (r: bool)
        ensures
            r <==> self.value() == 0,
    {
        proof {
            assert(self.hi as nat * two_pow_128() >= 0) by (nonlinear_arith);
            if self.hi > 0 {
                assert(self.hi as nat * two_pow_128() >= two_pow_128()) by (nonlinear_arith)
                    requires
                        self.hi > 0,
                ;
            }
        }
        self.hi == 0 && self.lo == 0
    }

    /// The value as a `u64`, if it fits.
    pub fn to_u64(&self) -> (r: Option<u64>)
        ensures
            match r {
                Some(v) => v == self.value(),
                None => self.value() > u64::MAX,
            },
    {
        proof {
            if self.hi > 0 {
                assert(self.hi as nat * two_pow_128() >= two_pow_128()) by (nonlinear_arith)
                    requires
                        self.hi > 0,
                ;
            }
        }
        if self.hi == 0 && self.lo <= (u64::MAX as u128) {
            Some(self.lo as u64)
        } else {
            None
        }
    }

    pub fn le(&self, other: &Uint256) -> (r: bool)
        ensures
            r <==> self.value() <= other.value(),
    {
        proof {
            let b = two_pow_128();
            if self.hi < other.hi {
                assert(self.hi as nat * b + self.lo < other.hi as nat * b) by (nonlinear_arith)
                    requires
                        self.hi < other.hi,
                        self.lo < b,
                ;
            } else if self.hi > other.hi {
                assert(other.hi as nat * b + other.lo < self.hi as nat * b) by (nonlinear_arith)
                    requires
                        self.hi > other.hi,
                        other.lo < b,
                ;
            }
        }
        self.hi < other.hi || (self.hi == other.hi && self.lo <= other.lo)
    }

    pub fn checked_add(self, other: Uint256) -> (r: Option<Uint256>)
        ensures
            match r {
                Some(s) => s.value() == self.value() + other.value(),
                None => self.value() + other.value() >= u256_bound(),
            },
    {
        u256_checked_add(self, other)
    }

    pub fn checked_mul(self, other: Uint256) -> (r: Option<Uint256>)
        ensures
            match r {
                Some(p) => p.value() == self.value() * other.value(),
                None => self.value() * other.value() >= u256_bound(),
            },
    {
        u256_checked_mul(self, other)
    }

    /// Floor division; `None` when `other` is zero.
    pub fn checked_div(self, other: Uint256) -> (r: Option<Uint256>)
        ensures
            match r {
                Some(q) => other.value() > 0 && q.value() == self.value() / other.value(),
                None => other.value() == 0,
            },
    {
        u256_checked_div(self, other)
    }

    /// The decimal representation.
    pub fn to_string(&self) -> (r: String)
        ensures
            r@ == decimal_digits(self.value()),
    {
        u256_to_string(*self)
    }
}

/// Relies on cosmwasm_std::Uint256::checked_add: the sum, or an error when it does not fit.
#[verifier::external_body]
fn u256_checked_add(a: Uint256, b: Uint256) -> (r: Option<Uint256>)
    ensures
        match r {
            Some(s) => s.value() == a.value() + b.value(),
            None => a.value() + b.value() >= u256_bound(),
        },
{
    let x = cosmwasm_std::Uint256::new([a.hi.to_be_bytes(), a.lo.to_be_bytes()].concat().try_into().unwrap());
    let y = cosmwasm_std::Uint256::new([b.hi.to_be_bytes(), b.lo.to_be_bytes()].concat().try_into().unwrap());
    let z = x.checked_add(y).ok()?.to_be_bytes();
    Some(Uint256 {
        hi: u128::from_be_bytes(z[..16].try_into().unwrap()),
        lo: u128::from_be_bytes(z[16..].try_into().unwrap()),
    })
}

/// Relies on cosmwasm_std::Uint256::checked_mul: the product, or an error when it does not fit.
#[verifier::external_body]
fn u256_checked_mul(a: Uint256, b: Uint256) -> (r: Option<Uint256>)
    ensures
        match r {
            Some(p) => p.value() == a.value() * b.value(),
            None => a.value() * b.value() >= u256_bound(),
        },
{
    let x = cosmwasm_std::Uint256::new([a.hi.to_be_bytes(), a.lo.to_be_bytes()].concat().try_into().unwrap());
    let y = cosmwasm_std::Uint256::new([b.hi.to_be_bytes(), b.lo.to_be_bytes()].concat().try_into().unwrap());
    let z = x.checked_mul(y).ok()?.to_be_bytes();
    Some(Uint256 {
        hi: u128::from_be_bytes(z[..16].try_into().unwrap()),
        lo: u128::from_be_bytes(z[16..].try_into().unwrap()),
    })
}

/// Relies on cosmwasm_std::Uint256::checked_div: the floor quotient, or an error for a zero
/// divisor.
#[verifier::external_body]
fn u256_checked_div(a: Uint256, b: Uint256) -> (r: Option<Uint256>)
    ensures
        match r {
            Some(q) => b.value() > 0 && q.value() == a.value() / b.value(),
            None => b.value() == 0,
        },
{
    let x = cosmwasm_std::Uint256::new([a.hi.to_be_bytes(), a.lo.to_be_bytes()].concat().try_into().unwrap());
    let y = cosmwasm_std::Uint256::new([b.hi.to_be_bytes(), b.lo.to_be_bytes()].concat().try_into().unwrap());
    let z = x.checked_div(y).ok()?.to_be_bytes();
    Some(Uint256 {
        hi: u128::from_be_bytes(z[..16].try_into().unwrap()),
        lo: u128::from_be_bytes(z[16..].try_into().unwrap()),
    })
}

/// Relies on the Display impl of cosmwasm_std::Uint256: decimal digits without leading zeros.
#[verifier::external_body]
fn u256_to_string(a: Uint256) -> (r: String)
    ensures
        r@ == decimal_digits(a.value()),
{
    let x = cosmwasm_std::Uint256::new([a.hi.to_be_bytes(), a.lo.to_be_bytes()].concat().try_into().unwrap());
    x.to_string()
}

/// Relies on cosmwasm_std::Uint256::from_str (bnum's `from_str_radix` in base 10): a
/// non-empty string of decimal digits parses to its value when that fits in 256 bits, and
/// fails otherwise; the empty string fails, and so does any string with a character other
/// than a decimal digit, but for a leading `+`.
#[verifier::external_body]
pub(crate) fn u256_from_str(s: &str) -> (r: Option<Uint256>)
    ensures
        s@.len() == 0 ==> r is None,
        r is Some ==> forall|i: int|
            0 <= i < s@.len() ==> is_decimal_digit(#[trigger] s@[i]) || (i == 0 && s@[i] == '+'),
        (s@.len() > 0 && forall|i: int| 0 <= i < s@.len() ==> is_decimal_digit(#[trigger] s@[i]))
            ==> match r {
            Some(v) => v.value() == decimal_value(s@),
            None => decimal_value(s@) >= u256_bound(),
        },
{
    let z = <cosmwasm_std::Uint256 as std::str::FromStr>::from_str(s).ok()?.to_be_bytes();
    Some(Uint256 {
        hi: u128::from_be_bytes(z[..16].try_into().unwrap()),
        lo: u128::from_be_bytes(z[16..].try_into().unwrap()),
    })
}

/// A fixed-point decimal with 18 fractional digits, held as its 256-bit atomics:
/// the number is `atomics / 10^18`.
#[derive(Clone, Copy, Debug, PartialEq, Eq, Structural)]
pub struct Decimal256 {
    pub atomics: Uint256,
}

impl Decimal256 {
    pub fn zero() -> (r: Decimal256)
        ensures
            r.atomics.value() == 0,
    {
        Decimal256 { atomics: Uint256::zero() }
    }

    pub fn is_zero(&self) -> (r: bool)
        ensures
            r <==> self.atomics.value() == 0,
    {
        self.atomics.is_zero()
    }

    /// The decimal whose atomics are `atomics`, that is `atomics / 10^18`.
    pub fn new(atomics: Uint256) -> (r: Decimal256)
        ensures
            r.atomics == atomics,
    {
        Decimal256 { atomics }
    }

    /// The decimal equal to the integer `n`, if it fits.
    pub fn from_uint(n: Uint256) -> (r: Option<Decimal256>)
        ensures
            match r {
                Some(d) => d.atomics.value() == n.value() * decimal_fractional(),
                None => n.value() * decimal_fractional() >= u256_bound(),
            },
    {
        let scale = Uint256::from_u128(1_000_000_000_000_000_000);
        match n.checked_mul(scale) {
            Some(a) => Some(Decimal256 { atomics: a }),
            None => None,
        }
    }

    /// The product, rounded down to 18 fractional digits.
    pub fn checked_mul(self, other: Decimal256) -> (r: Option<Decimal256>)
        ensures
            match r {
                Some(p) => p.atomics.value() == self.atomics.value() * other.atomics.value()
                    / decimal_fractional(),
                None => self.atomics.value() * other.atomics.value() / decimal_fractional()
                    >= u256_bound(),
            },
    {
        decimal_checked_mul(self, other)
    }

    /// The quotient, rounded down to 18 fractional digits; `None` for a zero divisor or a
    /// quotient that does not fit.
    pub fn checked_div(self, other: Decimal256) -> (r: Option<Decimal256>)
        ensures
            match r {
                Some(q) => other.atomics.value() > 0 && q.atomics.value() == self.atomics.value()
                    * decimal_fractional() / other.atomics.value(),
                None => other.atomics.value() == 0 || self.atomics.value() * decimal_fractional()
                    / other.atomics.value() >= u256_bound(),
            },
    {
        decimal_checked_div(self, other)
    }

    pub fn checked_add(self, other: Decimal256) -> (r: Option<Decimal256>)
        ensures
            match r {
                Some(s) => s.atomics.value() == self.atomics.value() + other.atomics.value(),
                None => self.atomics.value() + other.atomics.value() >= u256_bound(),
            },
    {
        match self.atomics.checked_add(other.atomics) {
            Some(a) => Some(Decimal256 { atomics: a }),
            None => None,
        }
    }
}

/// Relies on cosmwasm_std::Decimal256::checked_mul: the atomics of the product are
/// `a * b / 10^18` rounded down, or an error when they do not fit.
#[verifier::external_body]
fn decimal_checked_mul(a: Decimal256, b: Decimal256) -> (r: Option<Decimal256>)
    ensures
        match r {
            Some(p) => p.atomics.value() == a.atomics.value() * b.atomics.value()
                / decimal_fractional(),
            None => a.atomics.value() * b.atomics.value() / decimal_fractional() >= u256_bound(),
        },
{
    let x = cosmwasm_std::Decimal256::new(cosmwasm_std::Uint256::new([a.atomics.hi.to_be_bytes(), a.atomics.lo.to_be_bytes()].concat().try_into().unwrap()));
    let y = cosmwasm_std::Decimal256::new(cosmwasm_std::Uint256::new([b.atomics.hi.to_be_bytes(), b.atomics.lo.to_be_bytes()].concat().try_into().unwrap()));
    let z = x.checked_mul(y).ok()?.atomics().to_be_bytes();
    Some(Decimal256 { atomics: Uint256 {
        hi: u128::from_be_bytes(z[..16].try_into().unwrap()),
        lo: u128::from_be_bytes(z[16..].try_into().unwrap()),
    } })
}

/// Relies on cosmwasm_std::Decimal256::checked_div: the atomics of the quotient are
/// `a * 10^18 / b` rounded down, or an error for a zero divisor or a quotient that does not fit.
#[verifier::external_body]
fn decimal_checked_div(a: Decimal256, b: Decimal256) -> (r: Option<Decimal256>)
    ensures
        match r {
            Some(q) => b.atomics.value() > 0 && q.atomics.value() == a.atomics.value()
                * decimal_fractional() / b.atomics.value(),
            None => b.atomics.value() == 0 || a.atomics.value() * decimal_fractional()
                / b.atomics.value() >= u256_bound(),
        },
{
    let x = cosmwasm_std::Decimal256::new(cosmwasm_std::Uint256::new([a.atomics.hi.to_be_bytes(), a.atomics.lo.to_be_bytes()].concat().try_into().unwrap()));
    let y = cosmwasm_std::Decimal256::new(cosmwasm_std::Uint256::new([b.atomics.hi.to_be_bytes(), b.atomics.lo.to_be_bytes()].concat().try_into().unwrap()));
    let z = x.checked_div(y).ok()?.atomics().to_be_bytes();
    Some(Decimal256 { atomics: Uint256 {
        hi: u128::from_be_bytes(z[..16].try_into().unwrap()),
        lo: u128::from_be_bytes(z[16..].try_into().unwrap()),
    } })
}

} // verus!
