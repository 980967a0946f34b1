use vstd::prelude::*;
use vstd::string::StringSliceAdditionalSpecFns;
use vstd::utf8::{encode_utf8, is_char_boundary};

verus! {

/// Identifies one account on one venue, written `<ExchangeId><u8>` (`Binance0`).
#[derive(Clone, Debug)]
pub struct ExchangeAccountId {
    pub exchange_id: String,
    pub account_number: u8,
}

impl View for ExchangeAccountId {
    type V = (Seq<char>, u8);

    open spec fn view(&self) -> (Seq<char>, u8) {
        (self.exchange_id@, self.account_number)
    }
}

#[derive(Clone, Copy, Debug, PartialEq, Eq, Structural)]
pub enum ExchangeAccountIdParseError {
    /// No exchange name, no account number, or a split inside a character.
    InvalidFormat,
    /// The account number does not fit in a `u8`.
    AccountNumberOutOfRange,
}

pub open spec fn is_digit_byte(b: u8) -> bool {
    48 <= b <= 57
}

/// How many ASCII digits end `b`.
pub open spec fn trailing_digits(b: Seq<u8>) -> nat
    decreases b.len(),
{
    if b.len() > 0 && is_digit_byte(b.last()) {
        1 + trailing_digits(b.drop_last())
    } else {
        0
    }
}

/// The number written in decimal by the ASCII digits `d`.
pub open spec fn decimal_value(d: Seq<u8>) -> nat
    decreases d.len(),
{
    if d.len() == 0 {
        0
    } else {
        decimal_value(d.drop_last()) * 10 + (d.last() - 48) as nat
    }
}

proof fn lemma_decimal_value_grows(d: Seq<u8>, i: int, j: int)
    requires
        0 <= i <= j <= d.len(),
        forall|k: int| 0 <= k < d.len() ==> is_digit_byte(#[trigger] d[k]),
    ensures
        decimal_value(d.subrange(0, i)) <= decimal_value(d.subrange(0, j)),
    decreases j - i,
{
    if i < j {
        lemma_decimal_value_grows(d, i, j - 1);
        assert(d.subrange(0, j).drop_last() =~= d.subrange(0, j - 1));
        assert(is_digit_byte(d[j - 1]));
    }
}

impl ExchangeAccountId {
    /// Reads `<ExchangeId><u8>`: the trailing ASCII digits are the account
    /// number, what stands before them the (non-empty) exchange name.
    pub fn parse(s: &str) -> (r: Result<Self, ExchangeAccountIdParseError>)
        ensures
            ({
                let b = s.spec_bytes();
                let k = b.len() - trailing_digits(b);
                let well_formed = 0 < k < b.len();
                let number = decimal_value(b.subrange(k, b.len() as int));
                match r {
                    Ok(id) => {
                        &&& well_formed
                        &&& number <= 255
                        &&& is_char_boundary(b, k)
                        &&& id.account_number == number
                        &&& encode_utf8(id.exchange_id@) == b.subrange(0, k)
                    },
                    Err(ExchangeAccountIdParseError::AccountNumberOutOfRange) => well_formed && number > 255,
                    Err(ExchangeAccountIdParseError::InvalidFormat) => !well_formed || (number <= 255
                        && !is_char_boundary(b, k)),
                }
            }),
    {
        let bytes = s.as_bytes();
        let ghost b = s.spec_bytes();
        let n = bytes.len();
        let mut k = n;
        assert(b.subrange(0, n as int) =~= b);
        while k > 0 && 48 <= bytes[k - 1] && bytes[k - 1] <= 57
            invariant
                0 <= k <= n,
                n == b.len(),
                b == s.spec_bytes(),
                bytes@ == b,
                trailing_digits(b.subrange(0, k as int)) + (n - k) == trailing_digits(b),
                forall|i: int| k <= i < n ==> is_digit_byte(#[trigger] b[i]),
            decreases k,
        {
            assert(b.subrange(0, k as int).drop_last() =~= b.subrange(0, k - 1));
            k = k - 1;
        }
        proof {
            if k > 0 {
                assert(b.subrange(0, k as int).last() == b[k - 1]);
            }
            assert(trailing_digits(b.subrange(0, k as int)) == 0);
        }
        if k == 0 || k == n {
            return Err(ExchangeAccountIdParseError::InvalidFormat);
        }
        let ghost d = b.subrange(k as int, n as int);
        let mut value: u32 = 0;
        let mut i = k;
        while i < n
            invariant
                k <= i <= n,
                0 < k < n,
                k == b.len() - trailing_digits(b),
                n == b.len(),
                b == s.spec_bytes(),
                bytes@ == b,
                d == b.subrange(k as int, n as int),
                forall|j: int| k <= j < n ==> is_digit_byte(#[trigger] b[j]),
                value == decimal_value(d.subrange(0, i - k)),
                value <= 255,
            decreases n - i,
        {
            assert(d.subrange(0, i - k + 1).drop_last() =~= d.subrange(0, i - k));
            assert(d[i - k] == b[i as int]);
            assert(d.subrange(0, i - k + 1).last() == d[i - k]);
            value = value * 10 + (bytes[i] - 48) as u32;
            assert(value == decimal_value(d.subrange(0, i - k + 1)));
            if value > 255 {
                proof {
                    assert forall|j: int| 0 <= j < d.len() implies is_digit_byte(#[trigger] d[j]) by {
                        assert(d[j] == b[k + j]);
                    }
                    lemma_decimal_value_grows(d, i - k + 1, d.len() as int);
                    assert(d.subrange(0, d.len() as int) =~= d);
                }
                return Err(ExchangeAccountIdParseError::AccountNumberOutOfRange);
            }
            i = i + 1;
        }
        assert(d.subrange(0, n - k) =~= d);
        if !s.is_char_boundary(k) {
            return Err(ExchangeAccountIdParseError::InvalidFormat);
        }
        let (name, _) = s.split_at(k);
        Ok(ExchangeAccountId { exchange_id: name.to_owned(), account_number: value as u8 })
    }

    pub fn new(exchange_id: String, account_number: u8) -> (r: Self)
        ensures
            r@ == (exchange_id@, account_number),
    {
        ExchangeAccountId { exchange_id, account_number }
    }

    /// A copy of this id.
    pub fn duplicate(&self) -> (r: Self)
        ensures
            r@ == self@,
    {
        ExchangeAccountId { exchange_id: self.exchange_id.clone(), account_number: self.account_number }
    }

    pub fn same_as(&self, other: &Self) -> (r: bool)
        ensures
            r == (self@ == other@),
    {
        self.account_number == other.account_number && self.exchange_id == other.exchange_id
    }
}

impl PartialEq for ExchangeAccountId {
    fn eq(&self, other: &ExchangeAccountId) -> (r: bool) {
        self.same_as(other)
    }
}

impl vstd::std_specs::cmp::PartialEqSpecImpl for ExchangeAccountId {
    open spec fn obeys_eq_spec() -> bool {
        true
    }

    open spec fn eq_spec(&self, other: &ExchangeAccountId) -> bool {
        self@ == other@
    }
}

impl Eq for ExchangeAccountId {
}

} // verus!
