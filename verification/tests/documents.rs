use std::collections::HashMap;

use chrono::{Datelike, NaiveDate};
use ledger_sim::amount::Amount;
use ledger_sim::date::Date;
use ledger_sim::generator::{
    default_charity, default_currency_symbol, default_main, default_mortgage,
    default_mortgage_income, default_start_date, Config, Generator, MAIN_ACCOUNT, MORTGAGE_ACCOUNT,
};
use ledger_sim::opening::{add_default_accounts, add_opening_balances};
use ledger_sim::sheet::{BalanceSheet, MORTGAGE_INCOME};
use rust_decimal::Decimal;
use serde_yaml::Value;

fn dec(mantissa: i64, scale: u32) -> Amount {
    Amount::new(mantissa as i128, scale).unwrap()
}

fn amount(value: Decimal) -> Amount {
    Amount::new(value.mantissa(), value.scale()).unwrap()
}

fn decimal(amount: Amount) -> Decimal {
    Decimal::from_i128_with_scale(amount.mantissa(), amount.scale())
}

fn required_amount(entry: &Value, key: &str) -> Result<Amount, String> {
    let value = entry.get(key).ok_or(format!("missing field `{key}`"))?;
    serde_yaml::from_value::<Decimal>(value.clone()).map(amount).map_err(|e| e.to_string())
}

fn required_day(entry: &Value, key: &str) -> Result<u32, String> {
    let value = entry.get(key).ok_or(format!("missing field `{key}`"))?;
    serde_yaml::from_value::<u32>(value.clone()).map_err(|e| e.to_string())
}

fn name_or(entry: &Value, key: &str, default: fn() -> String) -> Result<String, String> {
    match entry.get(key) {
        Some(value) => serde_yaml::from_value::<String>(value.clone()).map_err(|e| e.to_string()),
        None => Ok(default()),
    }
}

fn generator(entry: &Value) -> Result<Generator, String> {
    let kind = entry.get("type").and_then(Value::as_str).ok_or("missing field `type`")?;
    match kind {
        "mortgage" => Ok(Generator::Mortgage {
            deduction_amount: required_amount(entry, "deduction_amount")?,
            deduction_day: required_day(entry, "deduction_day")?,
            from: name_or(entry, "from", default_main)?,
            to: name_or(entry, "to", default_mortgage)?,
        }),
        "interest" => Ok(Generator::Interest {
            rate: required_amount(entry, "rate")?,
            day: required_day(entry, "day")?,
            account: name_or(entry, "account", default_mortgage)?,
            income_account: name_or(entry, "income_account", default_mortgage_income)?,
        }),
        "salary" => Ok(Generator::Salary {
            amount: required_amount(entry, "amount")?,
            day: required_day(entry, "day")?,
            to: name_or(entry, "to", default_main)?,
        }),
        "transfer" => Ok(Generator::Transfer {
            amount: required_amount(entry, "amount")?,
            day: required_day(entry, "day")?,
            from: name_or(entry, "from", default_main)?,
            to: name_or(entry, "to", default_main)?,
        }),
        "tithe" => Ok(Generator::Tithe {
            percentage: required_amount(entry, "percentage")?,
            day: required_day(entry, "day")?,
            from: name_or(entry, "from", default_main)?,
            to: name_or(entry, "to", default_charity)?,
        }),
        other => Err(format!("unknown variant `{other}`")),
    }
}

/// Reads a configuration document the way the command-line program does:
/// the document's fields, and the library's defaults for those it leaves out.
fn load(yaml: &str) -> Result<Config, String> {
    let document: Value = serde_yaml::from_str(yaml).map_err(|e| e.to_string())?;
    let entries = document
        .get("transactions")
        .and_then(Value::as_sequence)
        .ok_or("missing field `transactions`")?;
    let transactions = entries.iter().map(generator).collect::<Result<Vec<_>, _>>()?;
    let listed = document.get("accounts").ok_or("missing field `accounts`")?;
    let listed: HashMap<String, Decimal> =
        serde_yaml::from_value(listed.clone()).map_err(|e| e.to_string())?;
    let mut accounts = BalanceSheet::new();
    for (name, balance) in listed {
        accounts.insert(name, amount(balance));
    }
    let currency_symbol = name_or(&document, "currency_symbol", default_currency_symbol)?;
    let start_date = match document.get("start_date") {
        Some(value) => {
            let date: NaiveDate =
                serde_yaml::from_value(value.clone()).map_err(|e| e.to_string())?;
            Date::new(date.year(), date.month(), date.day()).ok_or("date out of range")?
        }
        None => default_start_date(),
    };
    Ok(Config { transactions, accounts, currency_symbol, start_date })
}

fn create_test_accounts(mortgage_deduction_day: u32) -> Config {
    let mut accounts = BalanceSheet::new();
    accounts.insert(MAIN_ACCOUNT.to_string(), dec(1000000, 2));
    accounts.insert(MORTGAGE_ACCOUNT.to_string(), dec(-50000000, 2));
    let accounts_with_defaults = add_default_accounts(&accounts);
    let accounts_with_opening = add_opening_balances(&accounts_with_defaults).unwrap();
    Config {
        transactions: vec![
            Generator::Mortgage {
                deduction_amount: dec(12345, 2),
                deduction_day: mortgage_deduction_day,
                from: MAIN_ACCOUNT.to_string(),
                to: MORTGAGE_ACCOUNT.to_string(),
            },
            Generator::Interest {
                rate: dec(50, 1),
                day: mortgage_deduction_day,
                account: MORTGAGE_ACCOUNT.to_string(),
                income_account: MORTGAGE_INCOME.to_string(),
            },
            Generator::Salary { amount: dec(200000, 2), day: 6, to: MAIN_ACCOUNT.to_string() },
        ],
        accounts: accounts_with_opening,
        currency_symbol: "£".to_string(),
        start_date: Date::new(2025, 1, 1).unwrap(),
    }
}

#[test]
fn test_config_parsing() {
    let yaml = r#"
transactions:
  - type: mortgage
    deduction_amount: 123.45
    deduction_day: 1
  - type: interest
    rate: 5.0
    day: 1
    account: mortgage
    income_account: mortgage_income
  - type: salary
    amount: 2000.00
    day: 6
accounts:
  main: 10000.00
  mortgage: -500000.00
currency_symbol: "£"
start_date: "2025-01-01"
"#;
    let parsed: Config = load(yaml).expect("Failed to parse YAML");
    let mut config = parsed;
    config.accounts = add_default_accounts(&config.accounts);
    config.accounts = add_opening_balances(&config.accounts).unwrap();

    let expected = create_test_accounts(1);
    assert_eq!(
        config, expected,
        "Config parsed from YAML does not match expected.\nParsed: {:#?}\nExpected: {:#?}",
        config, expected
    );
    let account = config.accounts.get(MAIN_ACCOUNT).unwrap();
    assert_eq!(decimal(account), Decimal::new(1000000, 2));
    assert_eq!(config.currency_symbol, "£");
}

#[test]
fn test_config_parsing_with_salary() {
    let yaml = r#"
transactions:
  - type: mortgage
    deduction_amount: 123.45
    deduction_day: 1
    from: main
    to: mortgage
  - type: salary
    amount: 2500.00
    day: 28
accounts:
  main: 10000.00
currency_symbol: "£"
start_date: "2025-01-01"
"#;
    let config: Config = load(yaml).expect("Failed to parse YAML");
    assert_eq!(config.transactions.len(), 2);
    let account = config.accounts.get(MAIN_ACCOUNT).unwrap();
    assert_eq!(decimal(account), Decimal::new(1000000, 2));
}

#[test]
fn test_config_parsing_with_transfer() {
    let yaml = r#"
transactions:
  - type: transfer
    amount: 250.00
    day: 10
    from: main
    to: savings
accounts:
  main: 5000.00
  savings: 0.00
currency_symbol: "£"
start_date: "2025-01-01"
"#;
    let config: Config = load(yaml).expect("Failed to parse YAML");
    assert_eq!(config.transactions.len(), 1);

    if let Generator::Transfer { amount, day, from, to } = &config.transactions[0] {
        assert_eq!(decimal(*amount), Decimal::new(25000, 2));
        assert_eq!(*day, 10);
        assert_eq!(from, "main");
        assert_eq!(to, "savings");
    } else {
        panic!("Expected Transfer transaction");
    }
}

#[test]
fn test_config_parsing_with_tithe() {
    let yaml = r#"
transactions:
  - type: tithe
    percentage: 10.0
    day: 15
    from: main
    to: charity_expenditure
accounts:
  main: 5000.00
currency_symbol: "£"
start_date: "2025-01-01"
"#;
    let config: Config = load(yaml).expect("Failed to parse YAML");
    assert_eq!(config.transactions.len(), 1);

    if let Generator::Tithe { percentage, day, from, to } = &config.transactions[0] {
        assert_eq!(decimal(*percentage), Decimal::new(100, 1));
        assert_eq!(*day, 15);
        assert_eq!(from, "main");
        assert_eq!(to, "charity_expenditure");
    } else {
        panic!("Expected Tithe transaction");
    }
}

#[test]
fn a_document_may_leave_out_what_has_a_default() {
    let yaml = r#"
transactions:
  - type: mortgage
    deduction_amount: 1
    deduction_day: 2
  - type: interest
    rate: 3
    day: 4
  - type: salary
    amount: 5
    day: 6
  - type: transfer
    amount: 7
    day: 8
  - type: tithe
    percentage: 9
    day: 10
accounts: {}
"#;
    let config = load(yaml).unwrap();
    let main = || "main".to_string();
    assert_eq!(
        config.transactions,
        vec![
            Generator::Mortgage {
                deduction_amount: dec(1, 0),
                deduction_day: 2,
                from: main(),
                to: "mortgage".to_string()
            },
            Generator::Interest {
                rate: dec(3, 0),
                day: 4,
                account: "mortgage".to_string(),
                income_account: "mortgage_income".to_string()
            },
            Generator::Salary { amount: dec(5, 0), day: 6, to: main() },
            Generator::Transfer { amount: dec(7, 0), day: 8, from: main(), to: main() },
            Generator::Tithe {
                percentage: dec(9, 0),
                day: 10,
                from: main(),
                to: "charity_expenditure".to_string()
            },
        ]
    );
    assert_eq!(config.accounts.len(), 0);
    assert_eq!(config.currency_symbol, "£");
    assert_eq!(config.start_date, Date::new(2025, 1, 1).unwrap());
}

#[test]
fn a_document_with_an_unknown_generator_is_refused() {
    let yaml = r#"
transactions:
  - type: lottery
    amount: 7
    day: 8
accounts: {}
"#;
    assert!(load(yaml).is_err());
    assert!(load("transactions: []").is_err());
    assert!(load("accounts: {}").is_err());
    assert!(load("transactions: [{type: salary, day: 3}]\naccounts: {}").is_err());
}

#[test]
fn configurations_compare_by_what_they_say() {
    let a = create_test_accounts(1);
    let mut b = create_test_accounts(1);
    assert_eq!(a, b);
    assert_eq!(a, a.clone());
    b.transactions[2] =
        Generator::Salary { amount: dec(2000, 0), day: 6, to: MAIN_ACCOUNT.to_string() };
    assert_eq!(a, b);
    b.transactions[2] =
        Generator::Salary { amount: dec(2001, 0), day: 6, to: MAIN_ACCOUNT.to_string() };
    assert_ne!(a, b);
    assert_ne!(a, create_test_accounts(2));
    let mut c = create_test_accounts(1);
    c.start_date = Date::new(2025, 1, 2).unwrap();
    assert_ne!(a, c);
    let mut d = create_test_accounts(1);
    d.accounts.insert("savings".to_string(), dec(0, 0));
    assert_ne!(a, d);
}
