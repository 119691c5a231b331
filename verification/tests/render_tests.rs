use ledger_parser::{
    Amount, Balance, Commodity, CommodityPosition, CommodityPrice, Date, DateTime, Decimal,
    Ledger, LedgerItem, Posting, PostingAmount, Price, Reality, SerializerSettings, Transaction,
    TransactionStatus,
};

fn render_to_string(v: Vec<u8>) -> String {
    String::from_utf8(v).unwrap()
}

#[test]
fn display_transaction_status() {
    let set = SerializerSettings::default();
    assert_eq!(
        render_to_string(TransactionStatus::Pending.to_string_pretty(&set)),
        "!"
    );
    assert_eq!(
        render_to_string(TransactionStatus::Cleared.to_string_pretty(&set)),
        "*"
    );
}

#[test]
fn display_amount() {
    let set = SerializerSettings::default();
    assert_eq!(
        render_to_string(
            Amount {
                quantity: Decimal::new(4200, 2),
                commodity: Commodity {
                    name: "€".as_bytes().to_vec(),
                    position: CommodityPosition::Right,
                }
            }
            .to_string_pretty(&set)
        ),
        "42.00 €"
    );
    assert_eq!(
        render_to_string(
            Amount {
                quantity: Decimal::new(4200, 2),
                commodity: Commodity {
                    name: "USD".as_bytes().to_vec(),
                    position: CommodityPosition::Left,
                }
            }
            .to_string_pretty(&set)
        ),
        "USD42.00"
    );
}

#[test]
fn display_commodity_price() {
    let set = SerializerSettings::default();
    let actual = render_to_string(
        CommodityPrice {
            datetime: DateTime {
                date: Date::from_ymd(2017, 11, 12),
                hour: 12,
                minute: 0,
                second: 0,
            },
            commodity_name: "mBH".as_bytes().to_vec(),
            amount: Amount {
                quantity: Decimal::new(500, 2),
                commodity: Commodity {
                    name: "PLN".as_bytes().to_vec(),
                    position: CommodityPosition::Right,
                },
            },
        }
        .to_string_pretty(&set),
    );
    let expected = "P 2017-11-12 12:00:00 mBH 5.00 PLN";
    assert_eq!(actual, expected);
}

#[test]
fn display_balance() {
    let set = SerializerSettings::default();
    assert_eq!(
        render_to_string(
            Balance::Amount(Amount {
                quantity: Decimal::new(4200, 2),
                commodity: Commodity {
                    name: "€".as_bytes().to_vec(),
                    position: CommodityPosition::Right,
                }
            })
            .to_string_pretty(&set)
        ),
        "42.00 €"
    );
    assert_eq!(render_to_string(Balance::Zero.to_string_pretty(&set)), "0");
}

#[test]
fn display_posting() {
    let set = SerializerSettings::default();
    assert_eq!(
        render_to_string(
            Posting {
                account: "Assets:Checking".as_bytes().to_vec(),
                reality: Reality::Real,
                amount: Some(PostingAmount {
                    amount: Amount {
                        quantity: Decimal::new(4200, 2),
                        commodity: Commodity {
                            name: "USD".as_bytes().to_vec(),
                            position: CommodityPosition::Left,
                        }
                    },
                    lot_price: None,
                    price: None,
                }),
                balance: Some(Balance::Amount(Amount {
                    quantity: Decimal::new(5000, 2),
                    commodity: Commodity {
                        name: "USD".as_bytes().to_vec(),
                        position: CommodityPosition::Left,
                    }
                })),
                status: Some(TransactionStatus::Cleared),
                comment: Some("asdf".as_bytes().to_vec()),
            }
            .to_string_pretty(&set)
        ),
        "* Assets:Checking  USD42.00 = USD50.00\n  ; asdf"
    );
}

fn simple_posting(comment: Option<&str>) -> Posting {
    Posting {
        account: "TEST:ABC 123".as_bytes().to_vec(),
        reality: Reality::Real,
        amount: Some(PostingAmount {
            amount: Amount {
                quantity: Decimal::new(120, 2),
                commodity: Commodity {
                    name: "$".as_bytes().to_vec(),
                    position: CommodityPosition::Left,
                },
            },
            lot_price: None,
            price: None,
        }),
        balance: None,
        status: None,
        comment: comment.map(|c| c.as_bytes().to_vec()),
    }
}

#[test]
fn display_transaction() {
    let set = SerializerSettings::default();
    let actual = render_to_string(
        Transaction {
            comment: Some("Comment Line 1\nComment Line 2".as_bytes().to_vec()),
            date: Date::from_ymd(2018, 10, 1),
            effective_date: Some(Date::from_ymd(2018, 10, 14)),
            status: Some(TransactionStatus::Pending),
            code: Some("123".as_bytes().to_vec()),
            description: "Marek Ogarek".as_bytes().to_vec(),
            postings: vec![simple_posting(Some("dd")), simple_posting(None)],
        }
        .to_string_pretty(&set),
    );
    let expected = "2018-10-01=2018-10-14 ! (123) Marek Ogarek\n  ; Comment Line 1\n  ; Comment Line 2\n  TEST:ABC 123  $1.20\n  ; dd\n  TEST:ABC 123  $1.20";
    assert_eq!(actual, expected);
}

fn priced_posting(total: bool) -> Posting {
    let pln = |cents: i64| Amount {
        quantity: Decimal::new(cents, 2),
        commodity: Commodity {
            name: "PLN".as_bytes().to_vec(),
            position: CommodityPosition::Right,
        },
    };
    Posting {
        account: "TEST:ABC 123".as_bytes().to_vec(),
        reality: Reality::Real,
        amount: Some(PostingAmount {
            amount: Amount {
                quantity: Decimal::new(120, 2),
                commodity: Commodity {
                    name: "$".as_bytes().to_vec(),
                    position: CommodityPosition::Left,
                },
            },
            lot_price: Some(if total {
                Price::Total(pln(500))
            } else {
                Price::Unit(pln(500))
            }),
            price: Some(if total {
                Price::Total(pln(600))
            } else {
                Price::Unit(pln(600))
            }),
        }),
        balance: None,
        status: None,
        comment: None,
    }
}

fn sample_ledger() -> Ledger {
    Ledger {
        items: vec![
            LedgerItem::Transaction(Transaction {
                comment: Some("Comment Line 1\nComment Line 2".as_bytes().to_vec()),
                date: Date::from_ymd(2018, 10, 1),
                effective_date: Some(Date::from_ymd(2018, 10, 14)),
                status: Some(TransactionStatus::Pending),
                code: Some("123".as_bytes().to_vec()),
                description: "Marek Ogarek".as_bytes().to_vec(),
                postings: vec![simple_posting(Some("dd")), simple_posting(None)],
            }),
            LedgerItem::EmptyLine,
            LedgerItem::Transaction(Transaction {
                comment: None,
                date: Date::from_ymd(2018, 10, 1),
                effective_date: Some(Date::from_ymd(2018, 10, 14)),
                status: Some(TransactionStatus::Pending),
                code: Some("123".as_bytes().to_vec()),
                description: "Marek Ogarek".as_bytes().to_vec(),
                postings: vec![priced_posting(false), priced_posting(true)],
            }),
            LedgerItem::EmptyLine,
            LedgerItem::CommodityPrice(CommodityPrice {
                datetime: DateTime {
                    date: Date::from_ymd(2017, 11, 12),
                    hour: 12,
                    minute: 0,
                    second: 0,
                },
                commodity_name: "mBH".as_bytes().to_vec(),
                amount: Amount {
                    quantity: Decimal::new(500, 2),
                    commodity: Commodity {
                        name: "PLN".as_bytes().to_vec(),
                        position: CommodityPosition::Right,
                    },
                },
            }),
        ],
    }
}

fn sample_ledger_text() -> String {
    let mut expected = String::new();
    expected.push_str("2018-10-01=2018-10-14 ! (123) Marek Ogarek\n");
    expected.push_str("  ; Comment Line 1\n");
    expected.push_str("  ; Comment Line 2\n");
    expected.push_str("  TEST:ABC 123  $1.20\n");
    expected.push_str("  ; dd\n");
    expected.push_str("  TEST:ABC 123  $1.20\n");
    expected.push_str("\n");
    expected.push_str("2018-10-01=2018-10-14 ! (123) Marek Ogarek\n");
    expected.push_str("  TEST:ABC 123  $1.20 {5.00 PLN} @ 6.00 PLN\n");
    expected.push_str("  TEST:ABC 123  $1.20 {{5.00 PLN}} @@ 6.00 PLN\n");
    expected.push_str("\n");
    expected.push_str("P 2017-11-12 12:00:00 mBH 5.00 PLN\n");
    expected
}

#[test]
fn display_ledger() {
    let set = SerializerSettings::default();
    let actual = render_to_string(sample_ledger().to_string_pretty(&set));
    assert_eq!(actual, sample_ledger_text());
}

#[test]
fn ledger_round_trip() {
    let set = SerializerSettings::default();
    let ledger = sample_ledger();
    let text = ledger.to_string_pretty(&set);
    let reparsed = ledger_parser::parse_ledger(&text).unwrap();
    assert_eq!(reparsed, ledger);
}

#[test]
fn canonical_text_idempotent() {
    let set = SerializerSettings::default();
    let text = sample_ledger_text();
    let parsed = ledger_parser::parse_ledger(text.as_bytes()).unwrap();
    let rendered = render_to_string(parsed.to_string_pretty(&set));
    assert_eq!(rendered, text);
}

#[test]
fn wider_indentation() {
    let set = SerializerSettings { indent_width: 4 };
    let actual = render_to_string(
        Posting {
            account: "A:B".as_bytes().to_vec(),
            reality: Reality::Real,
            amount: None,
            balance: None,
            status: None,
            comment: Some("note".as_bytes().to_vec()),
        }
        .to_string_pretty(&set),
    );
    assert_eq!(actual, "A:B\n    ; note");
}

#[test]
fn virtual_posting_brackets() {
    let set = SerializerSettings::default();
    let mut p = simple_posting(None);
    p.reality = Reality::BalancedVirtual;
    assert_eq!(
        render_to_string(p.to_string_pretty(&set)),
        "[TEST:ABC 123]  $1.20"
    );
    let mut q = simple_posting(None);
    q.reality = Reality::UnbalancedVirtual;
    assert_eq!(
        render_to_string(q.to_string_pretty(&set)),
        "(TEST:ABC 123)  $1.20"
    );
}
