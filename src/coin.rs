use vstd::prelude::*;
use vstd::string::{StrSliceExecFns, StringExecFns};

use crate::num::{decimal_digits, decimal_value, digit_char, is_decimal_digit, u256_bound, u256_from_str, Uint256};

verus! {

/// Why a coin could not be read.
#[derive(Clone, Copy, Debug, PartialEq, Eq, Structural)]
pub enum CoinError {
    /// The denomination is not valid.
    Denom,
    /// The amount is not a 256-bit unsigned integer.
    Uint,
}

pub open spec fn is_ascii_letter(c: char) -> bool {
    ('a' <= c && c <= 'z') || ('A' <= c && c <= 'Z')
}

pub open spec fn is_denom_char(c: char) -> bool {
    is_ascii_letter(c) || is_decimal_digit(c) || c == '/' || c == ':' || c == '.' || c == '_'
        || c == '-'
}

/// A denomination: a letter followed by 2 to 127 letters, digits or `/:._-`.
pub open spec fn valid_denom(s: Seq<char>) -> bool {
    &&& 3 <= s.len() <= 128
    &&& is_ascii_letter(s[0])
    &&& forall|i: int| 1 <= i < s.len() ==> is_denom_char(#[trigger] s[i])
}

/// A coin denomination.
#[derive(Clone, Debug, PartialEq, Eq)]
pub struct Denom {
    pub value: String,
}

impl Denom {
    pub open spec fn view(&self) -> Seq<char> {
        self.value@
    }

    pub fn from_str(s: &str) -> (r: Result<Denom, CoinError>)
        ensures
            match r {
                Ok(d) => valid_denom(s@) && d.view() == s@,
                Err(e) => !valid_denom(s@) && e == CoinError::Denom,
            },
    {
        let n = s.unicode_len();
        if n < 3 || n > 128 {
            return Err(CoinError::Denom);
        }
        let first = s.get_char(0);
        if !(('a' <= first && first <= 'z') || ('A' <= first && first <= 'Z')) {
            return Err(CoinError::Denom);
        }
        let mut i: usize = 1;
        while i < n
            invariant
                n == s@.len(),
                1 <= i <= n,
                forall|j: int| 1 <= j < i ==> is_denom_char(#[trigger] s@[j]),
            decreases n - i,
        {
            let c = s.get_char(i);
            let ok = ('a' <= c && c <= 'z') || ('A' <= c && c <= 'Z') || ('0' <= c && c <= '9')
                || c == '/' || c == ':' || c == '.' || c == '_' || c == '-';
            if !ok {
                return Err(CoinError::Denom);
            }
            i = i + 1;
        }
        Ok(Denom { value: String::from_str(s) })
    }

    pub fn as_str(&self) -> (r: &str)
        ensures
            r@ == self.view(),
    {
        self.value.as_str()
    }
}

/// Whether `char::is_numeric` holds of `c`.
pub uninterp spec fn numeric_char(c: char) -> bool;

/// Relies on char::is_numeric: ASCII digits are numeric, and no other ASCII character is.
#[verifier::external_body]
fn is_numeric(c: char) -> (r: bool)
    ensures
        r == numeric_char(c),
        is_decimal_digit(c) ==> r,
        (c as u32) < 128 && !is_decimal_digit(c) ==> !r,
{
    c.is_numeric()
}

/// Length of the run of numeric characters that starts `s`.
pub open spec fn numeric_prefix(s: Seq<char>) -> nat
    decreases s.len(),
{
    if s.len() == 0 {
        0
    } else if numeric_char(s[0]) {
        1 + numeric_prefix(s.drop_first())
    } else {
        0
    }
}

proof fn lemma_numeric_prefix(s: Seq<char>, i: int)
    requires
        0 <= i <= s.len(),
        forall|j: int| 0 <= j < i ==> numeric_char(#[trigger] s[j]),
        i == s.len() || !numeric_char(s[i]),
    ensures
        numeric_prefix(s) == i,
    decreases i,
{
    if i > 0 {
        let d = s.drop_first();
        assert forall|j: int| 0 <= j < i - 1 implies numeric_char(#[trigger] d[j]) by {
            assert(d[j] == s[j + 1]);
        }
        if i < s.len() {
            assert(d[i - 1] == s[i]);
        }
        lemma_numeric_prefix(d, i - 1);
    }
}

/// Length of the run of ASCII digits that starts `s`.
pub open spec fn digit_prefix(s: Seq<char>) -> nat
    decreases s.len(),
{
    if s.len() == 0 {
        0
    } else if is_decimal_digit(s[0]) {
        1 + digit_prefix(s.drop_first())
    } else {
        0
    }
}

proof fn lemma_digit_prefix(s: Seq<char>, i: int)
    requires
        0 <= i <= s.len(),
        forall|j: int| 0 <= j < i ==> is_decimal_digit(#[trigger] s[j]),
        i == s.len() || !is_decimal_digit(s[i]),
    ensures
        digit_prefix(s) == i,
    decreases i,
{
    if i > 0 {
        let d = s.drop_first();
        assert forall|j: int| 0 <= j < i - 1 implies is_decimal_digit(#[trigger] d[j]) by {
            assert(d[j] == s[j + 1]);
        }
        if i < s.len() {
            assert(d[i - 1] == s[i]);
        }
        lemma_digit_prefix(d, i - 1);
    }
}

pub open spec fn all_ascii(s: Seq<char>) -> bool {
    forall|i: int| 0 <= i < s.len() ==> (#[trigger] s[i] as u32) < 128
}

/// What reading an ASCII string `s` as a coin gives: the amount from its leading digits and
/// the denomination from the rest.
pub open spec fn coin_parse_ascii(s: Seq<char>) -> Result<(nat, Seq<char>), CoinError> {
    let i = digit_prefix(s) as int;
    let digits = s.subrange(0, i);
    let rest = s.subrange(i, s.len() as int);
    if i == 0 || decimal_value(digits) >= u256_bound() {
        Err(CoinError::Uint)
    } else if !valid_denom(rest) {
        Err(CoinError::Denom)
    } else {
        Ok((decimal_value(digits), rest))
    }
}

pub open spec fn all_decimal_digits(s: Seq<char>) -> bool {
    forall|i: int| 0 <= i < s.len() ==> is_decimal_digit(#[trigger] s[i])
}

/// What reading `s` as a coin gives, where its leading numeric characters are all ASCII
/// digits: the amount from those digits and the denomination from the rest.
pub open spec fn coin_parse(s: Seq<char>) -> Result<(nat, Seq<char>), CoinError> {
    let i = numeric_prefix(s) as int;
    let digits = s.subrange(0, i);
    let rest = s.subrange(i, s.len() as int);
    if i == 0 || decimal_value(digits) >= u256_bound() {
        Err(CoinError::Uint)
    } else if !valid_denom(rest) {
        Err(CoinError::Denom)
    } else {
        Ok((decimal_value(digits), rest))
    }
}

proof fn lemma_decimal_digits(n: nat)
    ensures
        decimal_digits(n).len() >= 1,
        all_decimal_digits(decimal_digits(n)),
        all_ascii(decimal_digits(n)),
        decimal_value(decimal_digits(n)) == n,
    decreases n,
{
    let c = digit_char(n % 10);
    assert((c as u32) == ('0' as u32) + n % 10);
    if n < 10 {
        let s = decimal_digits(n);
        assert(s =~= seq![c]);
        assert(s.drop_last() =~= Seq::<char>::empty());
        assert(decimal_value(s) == decimal_value(s.drop_last()) * 10 + ((s.last() as u32) - (
        '0' as u32)) as nat);
    } else {
        lemma_decimal_digits(n / 10);
        let p = decimal_digits(n / 10);
        let s = decimal_digits(n);
        assert(s == p.push(c));
        assert(s.drop_last() =~= p);
        assert(s.last() == c);
        assert(decimal_value(s) == decimal_value(p) * 10 + ((c as u32) - ('0' as u32)) as nat);
        assert(n == (n / 10) * 10 + n % 10);
        assert forall|i: int| 0 <= i < s.len() implies is_decimal_digit(#[trigger] s[i]) && (s[i] as u32) < 128 by {
            if i < p.len() {
                assert(s[i] == p[i]);
            }
        }
    }
}

/// Writing a coin as its amount's digits followed by its denomination and reading it back
/// gives the same amount and denomination: the text is ASCII, so `UnsignedCoin::from_str`
/// reads it by `coin_parse_ascii`, and `UnsignedCoin::to_string` writes exactly this text.
pub proof fn lemma_coin_round_trip(n: nat, d: Seq<char>)
    requires
        n < u256_bound(),
        valid_denom(d),
    ensures
        all_ascii(decimal_digits(n) + d),
        coin_parse_ascii(decimal_digits(n) + d) == Ok::<(nat, Seq<char>), CoinError>((n, d)),
{
    lemma_decimal_digits(n);
    let a = decimal_digits(n);
    let s = a + d;
    assert forall|i: int| 0 <= i < s.len() implies (#[trigger] s[i] as u32) < 128 by {
        if i < a.len() {
            assert(s[i] == a[i]);
        } else {
            assert(s[i] == d[i - a.len()]);
            if i - a.len() > 0 {
                assert(is_denom_char(d[i - a.len()]));
            }
        }
    }
    assert forall|j: int| 0 <= j < a.len() implies is_decimal_digit(#[trigger] s[j]) by {
        assert(s[j] == a[j]);
    }
    assert(s[a.len() as int] == d[0]);
    lemma_digit_prefix(s, a.len() as int);
    assert(s.subrange(0, a.len() as int) =~= a);
    assert(s.subrange(a.len() as int, s.len() as int) =~= d);
}

/// A token amount with its denomination.
#[derive(Clone, Debug, PartialEq, Eq)]
pub struct UnsignedCoin {
    pub denom: Denom,
    pub amount: Uint256,
}

impl UnsignedCoin {
    pub fn denom(&self) -> (r: &Denom)
        ensures
            *r == self.denom,
    {
        &self.denom
    }

    pub fn amount(&self) -> (r: &Uint256)
        ensures
            *r == self.amount,
    {
        &self.amount
    }

    /// Reads a coin written as its amount followed by its denomination, as in `100uatom`.
    pub fn from_str(input: &str) -> (r: Result<UnsignedCoin, CoinError>)
        ensures
            ({
                let i = numeric_prefix(input@) as int;
                all_decimal_digits(input@.subrange(0, i)) ==> match coin_parse(input@) {
                    Ok((amount, denom)) => r matches Ok(c) && c.amount.value() == amount
                        && c.denom.view() == denom,
                    Err(e) => r == Err::<UnsignedCoin, CoinError>(e),
                }
            }),
            all_ascii(input@) ==> match coin_parse_ascii(input@) {
                Ok((amount, denom)) => r matches Ok(c) && c.amount.value() == amount
                    && c.denom.view() == denom,
                Err(e) => r == Err::<UnsignedCoin, CoinError>(e),
            },
            ({
                let i = numeric_prefix(input@) as int;
                !all_decimal_digits(input@.subrange(0, i)) ==> r == Err::<UnsignedCoin, CoinError>(
                    CoinError::Uint,
                )
            }),
            r matches Ok(c) ==> valid_denom(c.denom.view()),
    {
        let n = input.unicode_len();
        let mut i: usize = 0;
        while i < n && is_numeric(input.get_char(i))
            invariant
                n == input@.len(),
                i <= n,
                forall|j: int| 0 <= j < i ==> numeric_char(#[trigger] input@[j]),
                all_ascii(input@) ==> forall|j: int| 0 <= j < i ==> is_decimal_digit(
                    #[trigger] input@[j],
                ),
                forall|j: int|
                    0 <= j < i ==> is_decimal_digit(#[trigger] input@[j]) || (input@[j] as u32)
                        >= 128,
            decreases n - i,
        {
            proof {
                let c = input@[i as int];
                if all_ascii(input@) {
                    assert((c as u32) < 128);
                }
            }
            i = i + 1;
        }
        proof {
            lemma_numeric_prefix(input@, i as int);
            if all_ascii(input@) {
                if i < n {
                    assert((input@[i as int] as u32) < 128);
                    assert(!is_decimal_digit(input@[i as int]));
                }
                lemma_digit_prefix(input@, i as int);
                assert(all_decimal_digits(input@.subrange(0, i as int)));
                assert(coin_parse_ascii(input@) == coin_parse(input@));
            }
            assert(numeric_prefix(input@) == i);
        }
        let digits = input.substring_char(0, i);
        let rest = input.substring_char(i, n);
        proof {
            assert(digits@ == input@.subrange(0, i as int));
            assert(rest@ == input@.subrange(i as int, n as int));
        }
        let amount = match u256_from_str(digits) {
            Some(a) => a,
            None => return Err(CoinError::Uint),
        };
        proof {
            assert forall|j: int| 0 <= j < i implies is_decimal_digit(
                #[trigger] input@.subrange(0, i as int)[j],
            ) by {
                assert(input@.subrange(0, i as int)[j] == input@[j]);
                assert(digits@[j] == input@[j]);
            }
        }
        let denom = match Denom::from_str(rest) {
            Ok(d) => d,
            Err(e) => return Err(e),
        };
        Ok(UnsignedCoin { denom, amount })
    }

    /// The amount's decimal digits followed by the denomination.
    pub fn to_string(&self) -> (r: String)
        ensures
            r@ == decimal_digits(self.amount.value()) + self.denom.view(),
    {
        let digits = self.amount.to_string();
        digits.concat(self.denom.as_str())
    }
}

/// The wire form of a coin: denomination and decimal amount as text.
#[derive(Clone, Debug, PartialEq, Eq)]
pub struct CoinRaw {
    pub denom: String,
    pub amount: String,
}

/// The wire form of a 256-bit integer: its decimal text.
#[derive(Clone, Debug, PartialEq, Eq)]
pub struct IntProto {
    pub int: String,
}

/// A 256-bit unsigned integer carried in its wire form.
#[derive(Clone, Copy, Debug, PartialEq, Eq, Structural)]
pub struct Uint256Proto {
    pub uint: Uint256,
}

impl UnsignedCoin {
    /// Reads a coin from its wire form: the denomination is checked first, then the amount.
    pub fn try_from_raw(raw: &CoinRaw) -> (r: Result<UnsignedCoin, CoinError>)
        ensures
            !valid_denom(raw.denom@) ==> r == Err::<UnsignedCoin, CoinError>(CoinError::Denom),
            r matches Ok(c) ==> valid_denom(raw.denom@) && c.denom.view() == raw.denom@,
            valid_denom(raw.denom@) && raw.amount@.len() > 0 && all_decimal_digits(raw.amount@)
                ==> match r {
                Ok(c) => c.amount.value() == decimal_value(raw.amount@),
                Err(e) => e == CoinError::Uint && decimal_value(raw.amount@) >= u256_bound(),
            },
            raw.amount@.len() == 0 ==> r is Err,
    {
        let denom = match Denom::from_str(raw.denom.as_str()) {
            Ok(d) => d,
            Err(e) => return Err(e),
        };
        match u256_from_str(raw.amount.as_str()) {
            Some(amount) => Ok(UnsignedCoin { denom, amount }),
            None => Err(CoinError::Uint),
        }
    }

    /// The wire form of the coin.
    pub fn to_raw(&self) -> (r: CoinRaw)
        ensures
            r.denom@ == self.denom.view(),
            r.amount@ == decimal_digits(self.amount.value()),
    {
        CoinRaw { denom: String::from_str(self.denom.as_str()), amount: self.amount.to_string() }
    }
}

impl Uint256Proto {
    pub fn try_from_raw(raw: &IntProto) -> (r: Result<Uint256Proto, CoinError>)
        ensures
            raw.int@.len() == 0 ==> r is Err,
            raw.int@.len() > 0 && all_decimal_digits(raw.int@) ==> match r {
                Ok(p) => p.uint.value() == decimal_value(raw.int@),
                Err(e) => e == CoinError::Uint && decimal_value(raw.int@) >= u256_bound(),
            },
    {
        match u256_from_str(raw.int.as_str()) {
            Some(uint) => Ok(Uint256Proto { uint }),
            None => Err(CoinError::Uint),
        }
    }

    pub fn to_raw(&self) -> (r: IntProto)
        ensures
            r.int@ == decimal_digits(self.uint.value()),
    {
        IntProto { int: self.uint.to_string() }
    }
}

} // verus!
