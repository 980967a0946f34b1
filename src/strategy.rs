use vstd::prelude::*;
use crate::account::ExchangeAccountId;

verus! {

/// A market, named by the codes of its base and quote currencies.
#[derive(Clone, Debug)]
pub struct CurrencyPair {
    pub base: String,
    pub quote: String,
}

impl CurrencyPair {
    pub fn from_codes(base: String, quote: String) -> (r: Self)
        ensures
            r.base@ == base@,
            r.quote@ == quote@,
    {
        CurrencyPair { base, quote }
    }
}

/// A decimal amount: `mantissa * 10^-scale`.
#[derive(Clone, Copy, Debug, PartialEq, Eq, Structural)]
pub struct Amount {
    pub mantissa: i128,
    pub scale: u32,
}

/// The settings of the example strategy: one market on the first Binance account.
#[derive(Clone, Copy, Debug, Default)]
pub struct ExampleStrategySettings {}

impl ExampleStrategySettings {
    pub fn exchange_account_id(&self) -> (r: ExchangeAccountId)
        ensures
            r.exchange_id@ == "Binance"@,
            r.account_number == 0,
    {
        ExchangeAccountId::new("Binance".to_owned(), 0)
    }

    pub fn currency_pair(&self) -> (r: CurrencyPair)
        ensures
            r.base@ == "eos"@,
            r.quote@ == "btc"@,
    {
        CurrencyPair::from_codes("eos".to_owned(), "btc".to_owned())
    }

    /// One unit.
    pub fn max_amount(&self) -> (r: Amount)
        ensures
            r == (Amount { mantissa: 1, scale: 0 }),
    {
        Amount { mantissa: 1, scale: 0 }
    }
}

} // verus!
