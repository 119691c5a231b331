//! Parser and serializer for a plain-text, line-oriented accounting journal
//! format: transactions with postings, commodity prices, periodic
//! transactions, comments and blank lines, together with the data model they
//! populate and a settings-driven serializer that renders the model back to
//! text.
//!
//! All text is handled as raw bytes (`Vec<u8>` / `Seq<u8>`), so the library
//! is agnostic to encoding beyond ASCII structure; commodity names and free
//! text pass through verbatim.

pub mod model;
pub mod text;
pub mod render;
pub mod parse;
pub mod laws;

pub use model::{
    Amount, AmountV, Balance, BalanceV, Commodity, CommodityPosition, CommodityPrice,
    CommodityPriceV, CommodityV, Date, DateTime, Decimal, Ledger, LedgerItem, LedgerItemV,
    LedgerV, Period, PeriodicTransaction, PeriodicTransactionV, Posting, PostingAmount,
    PostingAmountV, PostingV, Price, PriceV, Reality, Transaction, TransactionStatus,
    TransactionV,
};
pub use render::SerializerSettings;
pub use parse::{
    parse_amount, parse_commodity, parse_date, parse_ledger, parse_quantity, CustomError,
    ParseError,
};
