//! The journal data model: a document is an ordered sequence of items
//! (transactions, commodity prices, periodic transactions, comments, blank
//! lines), each an immutable value type.
//!
//! For every executable type holding text or lists there is a ghost mirror
//! (`...V`) over `Seq<u8>` / `Seq<...>`, reached through `View`; contracts of
//! the parser and the serializer speak of those mirrors.

use vstd::prelude::*;

verus! {

/// Largest mantissa magnitude (exclusive) a `Decimal` may carry: 10^18.
pub const DECIMAL_LIMIT: i64 = 1000000000000000000;

/// Largest scale a `Decimal` may carry.
pub const DECIMAL_MAX_SCALE: u32 = 18;

/// An exact decimal number: `mantissa * 10^(-scale)`. The scale is part of
/// the value, so `0.10` (mantissa 10, scale 2) and `0.1` (mantissa 1,
/// scale 1) are distinct values that render differently.
#[derive(Debug, PartialEq, Eq, Structural, Clone, Copy)]
pub struct Decimal {
    pub mantissa: i64,
    pub scale: u32,
}

impl Decimal {
    /// Range the parser guarantees and the round-trip laws assume.
    pub open spec fn wf(self) -> bool {
        self.scale <= DECIMAL_MAX_SCALE
        && -DECIMAL_LIMIT < self.mantissa < DECIMAL_LIMIT
    }

    /// Builds the decimal `mantissa * 10^(-scale)`.
    pub fn new(mantissa: i64, scale: u32) -> (r: Decimal)
        ensures
            r.mantissa == mantissa,
            r.scale == scale,
    {
        Decimal { mantissa, scale }
    }
}

/// A calendar date, held as plain year / month / day numbers.
#[derive(Debug, PartialEq, Eq, Structural, Clone, Copy)]
pub struct Date {
    pub year: u32,
    pub month: u32,
    pub day: u32,
}

/// True for leap years of the proleptic Gregorian calendar.
pub open spec fn is_leap_year(year: int) -> bool {
    (year % 4 == 0 && year % 100 != 0) || year % 400 == 0
}

/// Number of days of the given month in the given year.
pub open spec fn days_in_month(year: int, month: int) -> int {
    if month == 2 {
        if is_leap_year(year) { 29 } else { 28 }
    } else if month == 4 || month == 6 || month == 9 || month == 11 {
        30
    } else {
        31
    }
}

impl Date {
    /// True when the triple is a real calendar date with a four-digit year.
    pub open spec fn valid(self) -> bool {
        self.year <= 9999
        && 1 <= self.month <= 12
        && 1 <= self.day <= days_in_month(self.year as int, self.month as int)
    }

    /// Builds a date from its components.
    pub fn from_ymd(year: u32, month: u32, day: u32) -> (r: Date)
        ensures
            r == (Date { year, month, day }),
    {
        Date { year, month, day }
    }
}

/// A calendar date with a time of day.
#[derive(Debug, PartialEq, Eq, Structural, Clone, Copy)]
pub struct DateTime {
    pub date: Date,
    pub hour: u32,
    pub minute: u32,
    pub second: u32,
}

impl DateTime {
    /// A valid date together with a valid 24-hour wall-clock time.
    pub open spec fn valid(self) -> bool {
        self.date.valid() && self.hour < 24 && self.minute < 60 && self.second < 60
    }
}

/// Transaction (or posting) clearing state.
#[derive(Debug, PartialEq, Eq, Structural, Clone, Copy)]
pub enum TransactionStatus {
    Pending,
    Cleared,
}

/// Whether a posting affects real balances or is a virtual (memo) entry.
#[derive(Debug, PartialEq, Eq, Structural, Clone, Copy)]
pub enum Reality {
    Real,
    BalancedVirtual,
    UnbalancedVirtual,
}

/// Whether a commodity symbol is printed before (`Left`, no separating
/// space) or after (`Right`, one separating space) its quantity.
#[derive(Debug, PartialEq, Eq, Structural, Clone, Copy)]
pub enum CommodityPosition {
    Left,
    Right,
}

/// A commodity: a name and the side on which it is printed.
#[derive(Debug, PartialEq, Eq, Clone)]
pub struct Commodity {
    pub name: Vec<u8>,
    pub position: CommodityPosition,
}

/// Ghost mirror of `Commodity`.
pub ghost struct CommodityV {
    pub name: Seq<u8>,
    pub position: CommodityPosition,
}

impl View for Commodity {
    type V = CommodityV;

    open spec fn view(&self) -> CommodityV {
        CommodityV { name: self.name@, position: self.position }
    }
}

/// An exact-precision quantity of a commodity.
#[derive(Debug, PartialEq, Eq, Clone)]
pub struct Amount {
    pub quantity: Decimal,
    pub commodity: Commodity,
}

/// Ghost mirror of `Amount`.
pub ghost struct AmountV {
    pub quantity: Decimal,
    pub commodity: CommodityV,
}

impl View for Amount {
    type V = AmountV;

    open spec fn view(&self) -> AmountV {
        AmountV { quantity: self.quantity, commodity: self.commodity@ }
    }
}

/// A price: either per unit or for the whole lot.
#[derive(Debug, PartialEq, Eq, Clone)]
pub enum Price {
    Unit(Amount),
    Total(Amount),
}

/// Ghost mirror of `Price`.
pub ghost enum PriceV {
    Unit(AmountV),
    Total(AmountV),
}

impl View for Price {
    type V = PriceV;

    open spec fn view(&self) -> PriceV {
        match self {
            Price::Unit(a) => PriceV::Unit(a@),
            Price::Total(a) => PriceV::Total(a@),
        }
    }
}

/// A balance assertion: the literal zero, or an amount.
#[derive(Debug, PartialEq, Eq, Clone)]
pub enum Balance {
    Zero,
    Amount(Amount),
}

/// Ghost mirror of `Balance`.
pub ghost enum BalanceV {
    Zero,
    Amount(AmountV),
}

impl View for Balance {
    type V = BalanceV;

    open spec fn view(&self) -> BalanceV {
        match self {
            Balance::Zero => BalanceV::Zero,
            Balance::Amount(a) => BalanceV::Amount(a@),
        }
    }
}

/// An amount on a posting, optionally with the lot price it was acquired at
/// and the price applied at this posting.
#[derive(Debug, PartialEq, Eq, Clone)]
pub struct PostingAmount {
    pub amount: Amount,
    pub lot_price: Option<Price>,
    pub price: Option<Price>,
}

/// Ghost mirror of `PostingAmount`.
pub ghost struct PostingAmountV {
    pub amount: AmountV,
    pub lot_price: Option<PriceV>,
    pub price: Option<PriceV>,
}

impl View for PostingAmount {
    type V = PostingAmountV;

    open spec fn view(&self) -> PostingAmountV {
        PostingAmountV {
            amount: self.amount@,
            lot_price: match self.lot_price {
                Some(p) => Some(p@),
                None => None,
            },
            price: match self.price {
                Some(p) => Some(p@),
                None => None,
            },
        }
    }
}

/// One account movement line within a transaction.
#[derive(Debug, PartialEq, Eq, Clone)]
pub struct Posting {
    pub account: Vec<u8>,
    pub reality: Reality,
    pub amount: Option<PostingAmount>,
    pub balance: Option<Balance>,
    pub status: Option<TransactionStatus>,
    pub comment: Option<Vec<u8>>,
}

/// Ghost mirror of `Posting`.
pub ghost struct PostingV {
    pub account: Seq<u8>,
    pub reality: Reality,
    pub amount: Option<PostingAmountV>,
    pub balance: Option<BalanceV>,
    pub status: Option<TransactionStatus>,
    pub comment: Option<Seq<u8>>,
}

impl View for Posting {
    type V = PostingV;

    open spec fn view(&self) -> PostingV {
        PostingV {
            account: self.account@,
            reality: self.reality,
            amount: match self.amount {
                Some(a) => Some(a@),
                None => None,
            },
            balance: match self.balance {
                Some(b) => Some(b@),
                None => None,
            },
            status: self.status,
            comment: match self.comment {
                Some(c) => Some(c@),
                None => None,
            },
        }
    }
}

/// A dated journal entry: a header line plus an ordered block of postings.
/// The comment, when present, is a multi-line text joined with `\n`.
#[derive(Debug, PartialEq, Eq, Clone)]
pub struct Transaction {
    pub comment: Option<Vec<u8>>,
    pub date: Date,
    pub effective_date: Option<Date>,
    pub status: Option<TransactionStatus>,
    pub code: Option<Vec<u8>>,
    pub description: Vec<u8>,
    pub postings: Vec<Posting>,
}

/// Ghost mirror of `Transaction`.
pub ghost struct TransactionV {
    pub comment: Option<Seq<u8>>,
    pub date: Date,
    pub effective_date: Option<Date>,
    pub status: Option<TransactionStatus>,
    pub code: Option<Seq<u8>>,
    pub description: Seq<u8>,
    pub postings: Seq<PostingV>,
}

impl View for Transaction {
    type V = TransactionV;

    open spec fn view(&self) -> TransactionV {
        TransactionV {
            comment: match self.comment {
                Some(c) => Some(c@),
                None => None,
            },
            date: self.date,
            effective_date: self.effective_date,
            status: self.status,
            code: match self.code {
                Some(c) => Some(c@),
                None => None,
            },
            description: self.description@,
            postings: self.postings@.map_values(|p: Posting| p@),
        }
    }
}

/// A recurrence rule for a periodic transaction. The count of the
/// `EveryN...` variants must be positive; a zero count is a caller contract
/// violation, not a handled error.
#[derive(Debug, PartialEq, Eq, Structural, Clone, Copy)]
pub enum Period {
    Daily,
    Weekly,
    Monthly,
    Yearly,
    Date(Date),
    EveryNDays(u32),
    EveryNWeeks(u32),
    EveryNMonths(u32),
    EveryNYears(u32),
}

/// A template transaction tagged with a recurrence rule rather than a
/// single date.
#[derive(Debug, PartialEq, Eq, Clone)]
pub struct PeriodicTransaction {
    pub period: Period,
    pub comment: Option<Vec<u8>>,
    pub start_date: Option<Date>,
    pub end_date: Option<Date>,
    pub postings: Vec<Posting>,
}

/// Ghost mirror of `PeriodicTransaction`.
pub ghost struct PeriodicTransactionV {
    pub period: Period,
    pub comment: Option<Seq<u8>>,
    pub start_date: Option<Date>,
    pub end_date: Option<Date>,
    pub postings: Seq<PostingV>,
}

impl View for PeriodicTransaction {
    type V = PeriodicTransactionV;

    open spec fn view(&self) -> PeriodicTransactionV {
        PeriodicTransactionV {
            period: self.period,
            comment: match self.comment {
                Some(c) => Some(c@),
                None => None,
            },
            start_date: self.start_date,
            end_date: self.end_date,
            postings: self.postings@.map_values(|p: Posting| p@),
        }
    }
}

/// A standalone price-history fact: at a point in time, one unit of the
/// named commodity was worth the given amount.
#[derive(Debug, PartialEq, Eq, Clone)]
pub struct CommodityPrice {
    pub datetime: DateTime,
    pub commodity_name: Vec<u8>,
    pub amount: Amount,
}

/// Ghost mirror of `CommodityPrice`.
pub ghost struct CommodityPriceV {
    pub datetime: DateTime,
    pub commodity_name: Seq<u8>,
    pub amount: AmountV,
}

impl View for CommodityPrice {
    type V = CommodityPriceV;

    open spec fn view(&self) -> CommodityPriceV {
        CommodityPriceV {
            datetime: self.datetime,
            commodity_name: self.commodity_name@,
            amount: self.amount@,
        }
    }
}

/// One top-level element of a journal document.
#[non_exhaustive]
#[derive(Debug, PartialEq, Eq, Clone)]
pub enum LedgerItem {
    EmptyLine,
    LineComment(Vec<u8>),
    Transaction(Transaction),
    CommodityPrice(CommodityPrice),
    Include(Vec<u8>),
    PeriodicTransaction(PeriodicTransaction),
}

/// Ghost mirror of `LedgerItem`.
pub ghost enum LedgerItemV {
    EmptyLine,
    LineComment(Seq<u8>),
    Transaction(TransactionV),
    CommodityPrice(CommodityPriceV),
    Include(Seq<u8>),
    PeriodicTransaction(PeriodicTransactionV),
}

impl View for LedgerItem {
    type V = LedgerItemV;

    open spec fn view(&self) -> LedgerItemV {
        match self {
            LedgerItem::EmptyLine => LedgerItemV::EmptyLine,
            LedgerItem::LineComment(t) => LedgerItemV::LineComment(t@),
            LedgerItem::Transaction(t) => LedgerItemV::Transaction(t@),
            LedgerItem::CommodityPrice(p) => LedgerItemV::CommodityPrice(p@),
            LedgerItem::Include(p) => LedgerItemV::Include(p@),
            LedgerItem::PeriodicTransaction(t) => LedgerItemV::PeriodicTransaction(t@),
        }
    }
}

/// The whole document: an ordered sequence of items. The order is the
/// serialization order, and blank lines are items like any other.
#[derive(Debug, PartialEq, Eq, Clone)]
pub struct Ledger {
    pub items: Vec<LedgerItem>,
}

/// Ghost mirror of `Ledger`.
pub ghost struct LedgerV {
    pub items: Seq<LedgerItemV>,
}

impl View for Ledger {
    type V = LedgerV;

    open spec fn view(&self) -> LedgerV {
        LedgerV { items: self.items@.map_values(|it: LedgerItem| it@) }
    }
}

} // verus!
