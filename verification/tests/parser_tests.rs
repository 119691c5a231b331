use ledger_parser::{
    parse_amount, parse_commodity, parse_date, parse_ledger, parse_quantity, Amount, Balance,
    Commodity, CommodityPosition, CustomError, Date, Decimal, LedgerItem, ParseError, Period,
    SerializerSettings,
};

#[test]
fn parse_date_test() {
    assert_eq!(
        Ok((Date::from_ymd(2017, 3, 24), 10)),
        parse_date(b"2017-03-24")
    );
    assert_eq!(
        Ok((Date::from_ymd(2017, 3, 24), 10)),
        parse_date(b"2017/03/24")
    );
    assert_eq!(
        Ok((Date::from_ymd(2017, 3, 24), 10)),
        parse_date(b"2017.03.24")
    );
    assert_eq!(
        Err(ParseError {
            kind: CustomError::NonExistingDate,
            pos: 0
        }),
        parse_date(b"2017-13-24")
    );
}

#[test]
fn parse_quantity_test() {
    assert_eq!(Ok((Decimal::new(202, 2), 4)), parse_quantity(b"2.02"));
    assert_eq!(Ok((Decimal::new(-1213, 2), 6)), parse_quantity(b"-12.13"));
    assert_eq!(Ok((Decimal::new(1, 1), 3)), parse_quantity(b"0.1"));
    assert_eq!(Ok((Decimal::new(3, 0), 1)), parse_quantity(b"3"));
}

#[test]
fn parse_commodity_test() {
    assert_eq!(
        Ok((b"ABC 123".to_vec(), 9)),
        parse_commodity(b"\"ABC 123\"")
    );
    assert_eq!(Ok((b"ABC".to_vec(), 3)), parse_commodity(b"ABC "));
    assert_eq!(Ok((b"$".to_vec(), 1)), parse_commodity(b"$1"));
}

fn dollars(cents: i64) -> Amount {
    Amount {
        quantity: Decimal::new(cents, 2),
        commodity: Commodity {
            name: b"$".to_vec(),
            position: CommodityPosition::Left,
        },
    }
}

fn usd(cents: i64) -> Amount {
    Amount {
        quantity: Decimal::new(cents, 2),
        commodity: Commodity {
            name: b"USD".to_vec(),
            position: CommodityPosition::Right,
        },
    }
}

#[test]
fn parse_amount_test() {
    assert_eq!(Ok((dollars(120), 5)), parse_amount(b"$1.20"));
    assert_eq!(Ok((dollars(-120), 6)), parse_amount(b"$-1.20"));
    assert_eq!(Ok((dollars(-120), 6)), parse_amount(b"-$1.20"));
    assert_eq!(Ok((dollars(-120), 8)), parse_amount(b"- $ 1.20"));
    assert_eq!(Ok((usd(120), 7)), parse_amount(b"1.20USD"));
    assert_eq!(Ok((usd(-120), 9)), parse_amount(b"-1.20 USD"));
}

#[test]
fn parse_quantity_rejects_garbage() {
    assert_eq!(
        Err(ParseError {
            kind: CustomError::SyntaxError,
            pos: 0
        }),
        parse_quantity(b"abc")
    );
    // an out-of-range value is a syntax error, not a wrong number
    assert_eq!(
        Err(ParseError {
            kind: CustomError::SyntaxError,
            pos: 0
        }),
        parse_quantity(b"10000000000000000000")
    );
}

#[test]
fn parse_quantity_keeps_trailing_zero_scale() {
    // 0.10 keeps scale 2; it is not the same value as 0.1 with scale 1
    assert_eq!(Ok((Decimal::new(10, 2), 4)), parse_quantity(b"0.10"));
    assert_ne!(Decimal::new(10, 2), Decimal::new(1, 1));
}

#[test]
fn parse_date_mixed_separators() {
    // the two separators are matched independently
    assert_eq!(
        Ok((Date::from_ymd(2017, 3, 24), 10)),
        parse_date(b"2017-03/24")
    );
}

#[test]
fn parse_ledger_empty_and_comments() {
    let parsed = parse_ledger(b"; hello\n\n").unwrap();
    assert_eq!(
        parsed.items,
        vec![
            LedgerItem::LineComment(b" hello".to_vec()),
            LedgerItem::EmptyLine,
        ]
    );
}

#[test]
fn parse_ledger_rejects_unknown_line() {
    let r = parse_ledger(b"what is this\n");
    assert!(r.is_err());
    assert_eq!(r.unwrap_err().kind, CustomError::SyntaxError);
}

#[test]
fn parse_ledger_balance_assertion() {
    let text = b"2018-10-01 desc\n  A:B  $1.20 = $5.00\n  C:D  = 0\n";
    let l = parse_ledger(text).unwrap();
    match &l.items[0] {
        LedgerItem::Transaction(t) => {
            assert_eq!(t.postings.len(), 2);
            assert_eq!(
                t.postings[0].balance,
                Some(Balance::Amount(dollars(500)))
            );
            assert_eq!(t.postings[1].balance, Some(Balance::Zero));
            assert_eq!(t.postings[1].amount, None);
        }
        other => panic!("expected a transaction, got {:?}", other),
    }
}

#[test]
fn parse_ledger_periodic() {
    let set = SerializerSettings::default();
    let text = "~ every 2 weeks from 2018-01-01 to 2018-12-31\n  A:B  $1.20\n";
    let l = parse_ledger(text.as_bytes()).unwrap();
    match &l.items[0] {
        LedgerItem::PeriodicTransaction(pt) => {
            assert_eq!(pt.period, Period::EveryNWeeks(2));
            assert_eq!(pt.start_date, Some(Date::from_ymd(2018, 1, 1)));
            assert_eq!(pt.end_date, Some(Date::from_ymd(2018, 12, 31)));
            assert_eq!(pt.postings.len(), 1);
        }
        other => panic!("expected a periodic transaction, got {:?}", other),
    }
    // canonical form round-trips
    let rendered = String::from_utf8(l.to_string_pretty(&set)).unwrap();
    assert_eq!(rendered, text);
}

#[test]
fn parse_ledger_bad_date_reports_non_existing() {
    let r = parse_ledger(b"2018-13-01 oops\n  A:B  $1.00\n");
    assert_eq!(r.unwrap_err().kind, CustomError::NonExistingDate);
}
