use mmb_core::account::{ExchangeAccountId, ExchangeAccountIdParseError};

#[test]
fn parses_name_and_number() {
    let id = ExchangeAccountId::parse("Binance0").expect("valid id");
    assert_eq!(id.exchange_id, "Binance");
    assert_eq!(id.account_number, 0);
    let id = ExchangeAccountId::parse("Bin4nce12").expect("valid id");
    assert_eq!(id, ExchangeAccountId::new("Bin4nce".to_string(), 12));
    let id = ExchangeAccountId::parse("Exmo007").expect("valid id");
    assert_eq!(id, ExchangeAccountId::new("Exmo".to_string(), 7));
    let id = ExchangeAccountId::parse("Börse255").expect("valid id");
    assert_eq!(id, ExchangeAccountId::new("Börse".to_string(), 255));
}

#[test]
fn rejects_malformed_ids() {
    assert_eq!(
        ExchangeAccountId::parse("Binance"),
        Err(ExchangeAccountIdParseError::InvalidFormat)
    );
    assert_eq!(ExchangeAccountId::parse("42"), Err(ExchangeAccountIdParseError::InvalidFormat));
    assert_eq!(ExchangeAccountId::parse(""), Err(ExchangeAccountIdParseError::InvalidFormat));
}

#[test]
fn rejects_account_number_over_u8() {
    assert_eq!(
        ExchangeAccountId::parse("Binance256"),
        Err(ExchangeAccountIdParseError::AccountNumberOutOfRange)
    );
    assert_eq!(
        ExchangeAccountId::parse("Binance99999999999999999999"),
        Err(ExchangeAccountIdParseError::AccountNumberOutOfRange)
    );
}
