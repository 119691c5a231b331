//! The serializer: pure rendering of every model node to journal text,
//! parameterized by a settings value. Each executable renderer is proved to
//! produce exactly the byte sequence given by its `spec_render_*` function.

use vstd::prelude::*;
use crate::model::{
    Amount, AmountV, Balance, BalanceV, CommodityPosition, CommodityPrice, CommodityPriceV, Date,
    DateTime, Decimal, Ledger, LedgerItem, LedgerItemV, LedgerV, Period, PeriodicTransaction,
    PeriodicTransactionV, Posting, PostingAmount, PostingAmountV, PostingV, Price, PriceV,
    Reality, Transaction, TransactionStatus, TransactionV,
};
use crate::text::{
    push_digits, push_pad2, push_pad4, push_pad_digits, spec_digits, spec_pad2, spec_pad4,
    spec_pad_digits,
};

verus! {

/// Cosmetic options of the serializer. The indentation width applies to
/// posting and comment lines inside a transaction.
#[derive(Debug, PartialEq, Eq, Structural, Clone, Copy)]
pub struct SerializerSettings {
    pub indent_width: usize,
}

impl Default for SerializerSettings {
    /// The default settings: two-space indentation.
    fn default() -> (s: Self)
        ensures
            s.indent_width == 2,
    {
        SerializerSettings { indent_width: 2 }
    }
}

/// The indentation string of the settings.
pub open spec fn spec_ind(set: SerializerSettings) -> Seq<u8> {
    Seq::new(set.indent_width as nat, |i: int| 32u8)
}

/// Magnitude of a mantissa.
pub open spec fn dec_abs(m: i64) -> nat {
    if m < 0 {
        (-(m as int)) as nat
    } else {
        m as nat
    }
}

/// The scale a decimal renders at; scales above the maximum render at the
/// maximum.
pub open spec fn spec_dec_scale(d: Decimal) -> int {
    if d.scale <= 18 {
        d.scale as int
    } else {
        18
    }
}

/// Canonical text of a decimal: optional sign, integer digits, and, for a
/// positive scale, a point followed by exactly `scale` fraction digits.
pub open spec fn spec_render_decimal(d: Decimal) -> Seq<u8> {
    let sign: Seq<u8> = if d.mantissa < 0 {
        seq![45u8]
    } else {
        Seq::<u8>::empty()
    };
    let sc = spec_dec_scale(d);
    if sc == 0 {
        sign + spec_digits(dec_abs(d.mantissa))
    } else {
        let ds = spec_pad_digits(dec_abs(d.mantissa), (sc + 1) as nat);
        let t = ds.len() as int;
        sign + ds.subrange(0, t - sc) + seq![46u8] + ds.subrange(t - sc, t)
    }
}

/// `YYYY-MM-DD`.
pub open spec fn spec_render_date(d: Date) -> Seq<u8> {
    spec_pad4(d.year as nat) + seq![45u8] + spec_pad2(d.month as nat) + seq![45u8] + spec_pad2(
        d.day as nat,
    )
}

/// `YYYY-MM-DD HH:MM:SS`.
pub open spec fn spec_render_datetime(dt: DateTime) -> Seq<u8> {
    spec_render_date(dt.date) + seq![32u8] + spec_pad2(dt.hour as nat) + seq![58u8] + spec_pad2(
        dt.minute as nat,
    ) + seq![58u8] + spec_pad2(dt.second as nat)
}

/// `!` for pending, `*` for cleared.
pub open spec fn spec_render_status(s: TransactionStatus) -> Seq<u8> {
    match s {
        TransactionStatus::Pending => seq![33u8],
        TransactionStatus::Cleared => seq![42u8],
    }
}

/// A left-positioned commodity precedes the quantity with no space; a
/// right-positioned one follows it after one space.
pub open spec fn spec_render_amount(a: AmountV) -> Seq<u8> {
    match a.commodity.position {
        CommodityPosition::Left => a.commodity.name + spec_render_decimal(a.quantity),
        CommodityPosition::Right => spec_render_decimal(a.quantity) + seq![32u8]
            + a.commodity.name,
    }
}

/// `0` for the literal zero assertion, else the amount.
pub open spec fn spec_render_balance(b: BalanceV) -> Seq<u8> {
    match b {
        BalanceV::Zero => seq![48u8],
        BalanceV::Amount(a) => spec_render_amount(a),
    }
}

/// Lot price part: ` {unit}` or ` {{total}}`.
pub open spec fn spec_render_lot(p: PriceV) -> Seq<u8> {
    match p {
        PriceV::Unit(a) => seq![32u8, 123u8] + spec_render_amount(a) + seq![125u8],
        PriceV::Total(a) => seq![32u8, 123u8, 123u8] + spec_render_amount(a) + seq![
            125u8,
            125u8,
        ],
    }
}

/// Posted price part: ` @ unit` or ` @@ total`.
pub open spec fn spec_render_price(p: PriceV) -> Seq<u8> {
    match p {
        PriceV::Unit(a) => seq![32u8, 64u8, 32u8] + spec_render_amount(a),
        PriceV::Total(a) => seq![32u8, 64u8, 64u8, 32u8] + spec_render_amount(a),
    }
}

/// Amount, then optional lot price, then optional posted price.
pub open spec fn spec_render_posting_amount(pa: PostingAmountV) -> Seq<u8> {
    spec_render_amount(pa.amount) + (match pa.lot_price {
        Some(p) => spec_render_lot(p),
        None => Seq::<u8>::empty(),
    }) + (match pa.price {
        Some(p) => spec_render_price(p),
        None => Seq::<u8>::empty(),
    })
}

/// `text` with every line break replaced by a line break followed by
/// `pre` (used to re-prefix the continuation lines of a comment).
pub open spec fn spec_repl(text: Seq<u8>, pre: Seq<u8>) -> Seq<u8>
    decreases text.len(),
{
    if text.len() == 0 {
        Seq::<u8>::empty()
    } else {
        spec_repl(text.drop_last(), pre) + (if text.last() == 10u8 {
            seq![10u8] + pre
        } else {
            seq![text.last()]
        })
    }
}

/// A comment block: a line break, then each line of `text` as an indented
/// `; ` line.
pub open spec fn spec_comment_block(text: Seq<u8>, set: SerializerSettings) -> Seq<u8> {
    seq![10u8] + spec_ind(set) + seq![59u8, 32u8] + spec_repl(
        text,
        spec_ind(set) + seq![59u8, 32u8],
    )
}

/// The comment block of an optional comment, or nothing.
pub open spec fn spec_opt_comment(c: Option<Seq<u8>>, set: SerializerSettings) -> Seq<u8> {
    match c {
        Some(text) => spec_comment_block(text, set),
        None => Seq::<u8>::empty(),
    }
}

/// The account with its virtual-posting brackets, if any.
pub open spec fn spec_account_part(account: Seq<u8>, reality: Reality) -> Seq<u8> {
    match reality {
        Reality::Real => account,
        Reality::BalancedVirtual => seq![91u8] + account + seq![93u8],
        Reality::UnbalancedVirtual => seq![40u8] + account + seq![41u8],
    }
}

/// The optional status glyph followed by one space.
pub open spec fn spec_posting_status_part(st: Option<TransactionStatus>) -> Seq<u8> {
    match st {
        Some(s) => spec_render_status(s) + seq![32u8],
        None => Seq::<u8>::empty(),
    }
}

/// The amount and/or balance of a posting, preceded by the two-space
/// separator when either is present.
pub open spec fn spec_amt_bal_part(
    amount: Option<PostingAmountV>,
    balance: Option<BalanceV>,
) -> Seq<u8> {
    match (amount, balance) {
        (Some(pa), Some(b)) => seq![32u8, 32u8] + spec_render_posting_amount(pa) + seq![
            32u8,
            61u8,
            32u8,
        ] + spec_render_balance(b),
        (Some(pa), None) => seq![32u8, 32u8] + spec_render_posting_amount(pa),
        (None, Some(b)) => seq![32u8, 32u8, 61u8, 32u8] + spec_render_balance(b),
        (None, None) => Seq::<u8>::empty(),
    }
}

/// One posting: optional status glyph and space, the account, a two-space
/// separator before the amount and/or balance, and the comment block.
pub open spec fn spec_render_posting(p: PostingV, set: SerializerSettings) -> Seq<u8> {
    spec_posting_status_part(p.status) + spec_account_part(p.account, p.reality)
        + spec_amt_bal_part(p.amount, p.balance) + spec_opt_comment(p.comment, set)
}

/// The postings of a transaction, each on its own indented line.
pub open spec fn spec_render_postings(ps: Seq<PostingV>, set: SerializerSettings) -> Seq<u8>
    decreases ps.len(),
{
    if ps.len() == 0 {
        Seq::<u8>::empty()
    } else {
        spec_render_postings(ps.drop_last(), set) + seq![10u8] + spec_ind(set)
            + spec_render_posting(ps.last(), set)
    }
}

/// `=` and the effective date, when present.
pub open spec fn spec_eff_part(eff: Option<Date>) -> Seq<u8> {
    match eff {
        Some(d) => seq![61u8] + spec_render_date(d),
        None => Seq::<u8>::empty(),
    }
}

/// A space and the status glyph, when present.
pub open spec fn spec_header_status_part(st: Option<TransactionStatus>) -> Seq<u8> {
    match st {
        Some(s) => seq![32u8] + spec_render_status(s),
        None => Seq::<u8>::empty(),
    }
}

/// A space and the parenthesized code, when present.
pub open spec fn spec_code_part(code: Option<Seq<u8>>) -> Seq<u8> {
    match code {
        Some(c) => seq![32u8, 40u8] + c + seq![41u8],
        None => Seq::<u8>::empty(),
    }
}

/// A transaction header line: date, `=` and effective date, status, code
/// in parentheses, description; each optional part preceded by one space.
pub open spec fn spec_txn_header(t: TransactionV) -> Seq<u8> {
    spec_render_date(t.date) + spec_eff_part(t.effective_date) + spec_header_status_part(t.status)
        + spec_code_part(t.code) + seq![32u8] + t.description
}

/// A whole transaction: header, comment block, postings. No trailing line
/// break.
pub open spec fn spec_render_transaction(t: TransactionV, set: SerializerSettings) -> Seq<u8> {
    spec_txn_header(t) + spec_opt_comment(t.comment, set) + spec_render_postings(t.postings, set)
}

/// `daily`.
pub open spec fn kw_daily() -> Seq<u8> {
    seq![100u8, 97u8, 105u8, 108u8, 121u8]
}

/// `weekly`.
pub open spec fn kw_weekly() -> Seq<u8> {
    seq![119u8, 101u8, 101u8, 107u8, 108u8, 121u8]
}

/// `monthly`.
pub open spec fn kw_monthly() -> Seq<u8> {
    seq![109u8, 111u8, 110u8, 116u8, 104u8, 108u8, 121u8]
}

/// `yearly`.
pub open spec fn kw_yearly() -> Seq<u8> {
    seq![121u8, 101u8, 97u8, 114u8, 108u8, 121u8]
}

/// `every`.
pub open spec fn kw_every() -> Seq<u8> {
    seq![101u8, 118u8, 101u8, 114u8, 121u8]
}

/// `days`.
pub open spec fn kw_days() -> Seq<u8> {
    seq![100u8, 97u8, 121u8, 115u8]
}

/// `weeks`.
pub open spec fn kw_weeks() -> Seq<u8> {
    seq![119u8, 101u8, 101u8, 107u8, 115u8]
}

/// `months`.
pub open spec fn kw_months() -> Seq<u8> {
    seq![109u8, 111u8, 110u8, 116u8, 104u8, 115u8]
}

/// `years`.
pub open spec fn kw_years() -> Seq<u8> {
    seq![121u8, 101u8, 97u8, 114u8, 115u8]
}

/// `from`.
pub open spec fn kw_from() -> Seq<u8> {
    seq![102u8, 114u8, 111u8, 109u8]
}

/// `to`.
pub open spec fn kw_to() -> Seq<u8> {
    seq![116u8, 111u8]
}

/// The file-inclusion directive keyword.
pub open spec fn kw_directive() -> Seq<u8> {
    seq![105u8, 110u8, 99u8, 108u8, 117u8, 100u8, 101u8]
}

/// `every N <unit>` for a recurrence count.
pub open spec fn spec_every_n(n: u32, unit: Seq<u8>) -> Seq<u8> {
    kw_every() + seq![32u8] + spec_digits(n as nat) + seq![32u8] + unit
}

/// The period specification text.
pub open spec fn spec_render_period(p: Period) -> Seq<u8> {
    match p {
        Period::Daily => kw_daily(),
        Period::Weekly => kw_weekly(),
        Period::Monthly => kw_monthly(),
        Period::Yearly => kw_yearly(),
        Period::Date(d) => spec_render_date(d),
        Period::EveryNDays(n) => spec_every_n(n, kw_days()),
        Period::EveryNWeeks(n) => spec_every_n(n, kw_weeks()),
        Period::EveryNMonths(n) => spec_every_n(n, kw_months()),
        Period::EveryNYears(n) => spec_every_n(n, kw_years()),
    }
}

/// A periodic-transaction header: `~ `, the period, optional `from` and
/// `to` date bounds.
pub open spec fn spec_periodic_header(t: PeriodicTransactionV) -> Seq<u8> {
    seq![126u8, 32u8] + spec_render_period(t.period) + (match t.start_date {
        Some(d) => seq![32u8] + kw_from() + seq![32u8] + spec_render_date(d),
        None => Seq::<u8>::empty(),
    }) + (match t.end_date {
        Some(d) => seq![32u8] + kw_to() + seq![32u8] + spec_render_date(d),
        None => Seq::<u8>::empty(),
    })
}

/// A whole periodic transaction: header, comment block, postings.
pub open spec fn spec_render_periodic(t: PeriodicTransactionV, set: SerializerSettings) -> Seq<
    u8,
> {
    spec_periodic_header(t) + spec_opt_comment(t.comment, set) + spec_render_postings(
        t.postings,
        set,
    )
}

/// `P YYYY-MM-DD HH:MM:SS <commodity> <amount>`.
pub open spec fn spec_render_commodity_price(cp: CommodityPriceV) -> Seq<u8> {
    seq![80u8, 32u8] + spec_render_datetime(cp.datetime) + seq![32u8] + cp.commodity_name + seq![
        32u8,
    ] + spec_render_amount(cp.amount)
}

/// One top-level item, without its terminating line break.
pub open spec fn spec_render_item(it: LedgerItemV, set: SerializerSettings) -> Seq<u8> {
    match it {
        LedgerItemV::EmptyLine => Seq::<u8>::empty(),
        LedgerItemV::LineComment(text) => seq![59u8] + text,
        LedgerItemV::Transaction(t) => spec_render_transaction(t, set),
        LedgerItemV::CommodityPrice(cp) => spec_render_commodity_price(cp),
        LedgerItemV::Include(path) => kw_directive() + seq![32u8] + path,
        LedgerItemV::PeriodicTransaction(t) => spec_render_periodic(t, set),
    }
}

/// All items in order, each followed by one line break.
pub open spec fn spec_render_items(items: Seq<LedgerItemV>, set: SerializerSettings) -> Seq<u8>
    decreases items.len(),
{
    if items.len() == 0 {
        Seq::<u8>::empty()
    } else {
        spec_render_items(items.drop_last(), set) + spec_render_item(items.last(), set) + seq![
            10u8,
        ]
    }
}

/// The whole document.
pub open spec fn spec_render_ledger(l: LedgerV, set: SerializerSettings) -> Seq<u8> {
    spec_render_items(l.items, set)
}

/// Appends the indentation string.
fn push_ind(out: &mut Vec<u8>, set: &SerializerSettings)
    ensures
        final(out)@ == old(out)@ + spec_ind(*set),
{
    let mut i: usize = 0;
    while i < set.indent_width
        invariant
            i <= set.indent_width,
            out@ == old(out)@ + Seq::new(i as nat, |j: int| 32u8),
        decreases set.indent_width - i,
    {
        out.push(32u8);
        i = i + 1;
        assert(Seq::new(i as nat, |j: int| 32u8) =~= Seq::new((i - 1) as nat, |j: int| 32u8).push(
            32u8,
        ));
    }
}

/// Appends the canonical text of a decimal.
fn push_decimal(out: &mut Vec<u8>, d: Decimal)
    ensures
        final(out)@ == old(out)@ + spec_render_decimal(d),
{
    if d.mantissa < 0 {
        out.push(45u8);
    }
    let a: u64 = if d.mantissa < 0 {
        proof {
            assert(-(d.mantissa as i128) <= u64::MAX as i128);
        }
        (-(d.mantissa as i128)) as u64
    } else {
        d.mantissa as u64
    };
    assert(a as nat == dec_abs(d.mantissa));
    let sc32: u32 = if d.scale > 18 {
        18
    } else {
        d.scale
    };
    if sc32 == 0 {
        push_digits(out, a);
    } else {
        let sc = sc32 as usize;
        let mut tmp: Vec<u8> = Vec::new();
        push_pad_digits(&mut tmp, a, sc + 1);
        proof {
            crate::text::lemma_digits_len(a as nat);
            assert(tmp@.len() >= sc + 1);
        }
        let t = tmp.len();
        out.extend_from_slice(&tmp.as_slice()[0..t - sc]);
        out.push(46u8);
        out.extend_from_slice(&tmp.as_slice()[t - sc..t]);
        assert(final(out)@ =~= old(out)@ + spec_render_decimal(d));
    }
}

/// Appends `YYYY-MM-DD`.
fn push_date(out: &mut Vec<u8>, d: &Date)
    ensures
        final(out)@ == old(out)@ + spec_render_date(*d),
{
    push_pad4(out, d.year);
    out.push(45u8);
    push_pad2(out, d.month);
    out.push(45u8);
    push_pad2(out, d.day);
    assert(final(out)@ =~= old(out)@ + spec_render_date(*d));
}

/// Appends `YYYY-MM-DD HH:MM:SS`.
fn push_datetime(out: &mut Vec<u8>, dt: &DateTime)
    ensures
        final(out)@ == old(out)@ + spec_render_datetime(*dt),
{
    push_date(out, &dt.date);
    out.push(32u8);
    push_pad2(out, dt.hour);
    out.push(58u8);
    push_pad2(out, dt.minute);
    out.push(58u8);
    push_pad2(out, dt.second);
    assert(final(out)@ =~= old(out)@ + spec_render_datetime(*dt));
}

/// Appends the status glyph.
fn push_status(out: &mut Vec<u8>, s: &TransactionStatus)
    ensures
        final(out)@ == old(out)@ + spec_render_status(*s),
{
    match s {
        TransactionStatus::Pending => out.push(33u8),
        TransactionStatus::Cleared => out.push(42u8),
    }
    assert(final(out)@ =~= old(out)@ + spec_render_status(*s));
}

/// Appends the amount text.
fn push_amount(out: &mut Vec<u8>, a: &Amount)
    ensures
        final(out)@ == old(out)@ + spec_render_amount(a@),
{
    match a.commodity.position {
        CommodityPosition::Left => {
            out.extend_from_slice(a.commodity.name.as_slice());
            push_decimal(out, a.quantity);
        },
        CommodityPosition::Right => {
            push_decimal(out, a.quantity);
            out.push(32u8);
            out.extend_from_slice(a.commodity.name.as_slice());
        },
    }
    assert(final(out)@ =~= old(out)@ + spec_render_amount(a@));
}

/// Appends the balance text.
fn push_balance(out: &mut Vec<u8>, b: &Balance)
    ensures
        final(out)@ == old(out)@ + spec_render_balance(b@),
{
    match b {
        Balance::Zero => out.push(48u8),
        Balance::Amount(a) => push_amount(out, a),
    }
    assert(final(out)@ =~= old(out)@ + spec_render_balance(b@));
}

/// Appends the lot price part.
fn push_lot(out: &mut Vec<u8>, p: &Price)
    ensures
        final(out)@ == old(out)@ + spec_render_lot(p@),
{
    match p {
        Price::Unit(a) => {
            out.push(32u8);
            out.push(123u8);
            push_amount(out, a);
            out.push(125u8);
        },
        Price::Total(a) => {
            out.push(32u8);
            out.push(123u8);
            out.push(123u8);
            push_amount(out, a);
            out.push(125u8);
            out.push(125u8);
        },
    }
    assert(final(out)@ =~= old(out)@ + spec_render_lot(p@));
}

/// Appends the posted price part.
fn push_price(out: &mut Vec<u8>, p: &Price)
    ensures
        final(out)@ == old(out)@ + spec_render_price(p@),
{
    match p {
        Price::Unit(a) => {
            out.push(32u8);
            out.push(64u8);
            out.push(32u8);
            push_amount(out, a);
        },
        Price::Total(a) => {
            out.push(32u8);
            out.push(64u8);
            out.push(64u8);
            out.push(32u8);
            push_amount(out, a);
        },
    }
    assert(final(out)@ =~= old(out)@ + spec_render_price(p@));
}

/// Appends the posting-amount text.
fn push_posting_amount(out: &mut Vec<u8>, pa: &PostingAmount)
    ensures
        final(out)@ == old(out)@ + spec_render_posting_amount(pa@),
{
    push_amount(out, &pa.amount);
    match &pa.lot_price {
        Some(p) => push_lot(out, p),
        None => {},
    }
    match &pa.price {
        Some(p) => push_price(out, p),
        None => {},
    }
    assert(final(out)@ =~= old(out)@ + spec_render_posting_amount(pa@));
}

/// Appends a comment block.
#[verifier::rlimit(100)]
fn push_comment_block(out: &mut Vec<u8>, text: &Vec<u8>, set: &SerializerSettings)
    ensures
        final(out)@ == old(out)@ + spec_comment_block(text@, *set),
{
    let ghost pre: Seq<u8> = spec_ind(*set) + seq![59u8, 32u8];
    out.push(10u8);
    push_ind(out, set);
    out.push(59u8);
    out.push(32u8);
    let ghost head: Seq<u8> = old(out)@ + seq![10u8] + spec_ind(*set) + seq![59u8, 32u8];
    assert(out@ =~= head);
    let mut i: usize = 0;
    while i < text.len()
        invariant
            i <= text.len(),
            pre == spec_ind(*set) + seq![59u8, 32u8],
            out@ == head + spec_repl(text@.subrange(0, i as int), pre),
        decreases text.len() - i,
    {
        let ghost pre_out = out@;
        let b = text[i];
        if b == 10u8 {
            out.push(10u8);
            push_ind(out, set);
            out.push(59u8);
            out.push(32u8);
        } else {
            out.push(b);
        }
        proof {
            let s1 = text@.subrange(0, i as int);
            let s2 = text@.subrange(0, i + 1);
            assert(s2.drop_last() =~= s1);
            assert(s2.last() == text@[i as int]);
            if b == 10u8 {
                assert(out@ =~= pre_out + seq![10u8] + spec_ind(*set) + seq![59u8, 32u8]);
                assert(seq![10u8] + pre =~= seq![10u8] + spec_ind(*set) + seq![59u8, 32u8]);
                assert(out@ =~= pre_out + (seq![10u8] + pre));
                assert(out@ =~= head + (spec_repl(s1, pre) + (seq![10u8] + pre)));
            } else {
                assert(out@ =~= pre_out + seq![b]);
                assert(out@ =~= head + (spec_repl(s1, pre) + seq![b]));
            }
            assert(out@ == head + spec_repl(s2, pre));
        }
        i = i + 1;
    }
    assert(text@.subrange(0, text@.len() as int) =~= text@);
    assert(final(out)@ =~= old(out)@ + spec_comment_block(text@, *set));
}

/// Appends the optional status glyph and its trailing space.
fn push_status_part(out: &mut Vec<u8>, st: &Option<TransactionStatus>)
    ensures
        final(out)@ == old(out)@ + spec_posting_status_part(*st),
{
    match st {
        Some(s) => {
            push_status(out, s);
            out.push(32u8);
            assert(final(out)@ =~= old(out)@ + spec_posting_status_part(*st));
        },
        None => {},
    }
}

/// Appends the account, bracketed according to the posting's reality.
fn push_account_part(out: &mut Vec<u8>, account: &Vec<u8>, reality: Reality)
    ensures
        final(out)@ == old(out)@ + spec_account_part(account@, reality),
{
    match reality {
        Reality::Real => {
            out.extend_from_slice(account.as_slice());
        },
        Reality::BalancedVirtual => {
            out.push(91u8);
            out.extend_from_slice(account.as_slice());
            out.push(93u8);
            assert(final(out)@ =~= old(out)@ + spec_account_part(account@, reality));
        },
        Reality::UnbalancedVirtual => {
            out.push(40u8);
            out.extend_from_slice(account.as_slice());
            out.push(41u8);
            assert(final(out)@ =~= old(out)@ + spec_account_part(account@, reality));
        },
    }
}

/// Appends the separator, amount and balance parts of a posting.
#[verifier::rlimit(100)]
fn push_amt_bal(out: &mut Vec<u8>, amount: &Option<PostingAmount>, balance: &Option<Balance>)
    ensures
        final(out)@ == old(out)@ + spec_amt_bal_part(
            match amount {
                Some(pa) => Some(pa@),
                None => None,
            },
            match balance {
                Some(b) => Some(b@),
                None => None,
            },
        ),
{
    match (amount, balance) {
        (Some(pa), Some(b)) => {
            out.push(32u8);
            out.push(32u8);
            push_posting_amount(out, pa);
            out.push(32u8);
            out.push(61u8);
            out.push(32u8);
            push_balance(out, b);
            assert(final(out)@ =~= old(out)@ + (seq![32u8, 32u8] + spec_render_posting_amount(
                pa@,
            ) + seq![32u8, 61u8, 32u8] + spec_render_balance(b@)));
        },
        (Some(pa), None) => {
            out.push(32u8);
            out.push(32u8);
            push_posting_amount(out, pa);
            assert(final(out)@ =~= old(out)@ + (seq![32u8, 32u8] + spec_render_posting_amount(
                pa@,
            )));
        },
        (None, Some(b)) => {
            out.push(32u8);
            out.push(32u8);
            out.push(61u8);
            out.push(32u8);
            push_balance(out, b);
            assert(final(out)@ =~= old(out)@ + (seq![32u8, 32u8, 61u8, 32u8]
                + spec_render_balance(b@)));
        },
        (None, None) => {},
    }
}

/// Appends one posting (no leading indentation, no trailing line break).
fn push_posting(out: &mut Vec<u8>, p: &Posting, set: &SerializerSettings)
    ensures
        final(out)@ == old(out)@ + spec_render_posting(p@, *set),
{
    push_status_part(out, &p.status);
    push_account_part(out, &p.account, p.reality);
    push_amt_bal(out, &p.amount, &p.balance);
    match &p.comment {
        Some(c) => push_comment_block(out, c, set),
        None => {},
    }
    proof {
        let a = spec_posting_status_part(p@.status);
        let b = spec_account_part(p@.account, p@.reality);
        let c = spec_amt_bal_part(p@.amount, p@.balance);
        let d = spec_opt_comment(p@.comment, *set);
        crate::text::seq_assoc(old(out)@, a, b);
        crate::text::seq_assoc(old(out)@, a + b, c);
        crate::text::seq_assoc(old(out)@, a + b + c, d);
        assert(final(out)@ == old(out)@ + spec_render_posting(p@, *set));
    }
}

/// Appends the posting lines of a transaction.
fn push_postings(out: &mut Vec<u8>, ps: &Vec<Posting>, set: &SerializerSettings)
    ensures
        final(out)@ == old(out)@ + spec_render_postings(
            ps@.map_values(|p: Posting| p@),
            *set,
        ),
{
    let ghost psv = ps@.map_values(|p: Posting| p@);
    let mut i: usize = 0;
    while i < ps.len()
        invariant
            i <= ps.len(),
            psv == ps@.map_values(|p: Posting| p@),
            out@ == old(out)@ + spec_render_postings(psv.subrange(0, i as int), *set),
        decreases ps.len() - i,
    {
        out.push(10u8);
        push_ind(out, set);
        push_posting(out, &ps[i], set);
        i = i + 1;
        proof {
            assert(psv.subrange(0, i as int).drop_last() =~= psv.subrange(0, i - 1));
            assert(psv.subrange(0, i as int).last() == ps@[i - 1]@);
            assert(out@ =~= old(out)@ + spec_render_postings(psv.subrange(0, i as int), *set));
        }
    }
    assert(psv.subrange(0, psv.len() as int) =~= psv);
}

/// Appends the comment block of an optional comment.
fn push_opt_comment(out: &mut Vec<u8>, c: &Option<Vec<u8>>, set: &SerializerSettings)
    ensures
        final(out)@ == old(out)@ + spec_opt_comment(
            match c {
                Some(t) => Some(t@),
                None => None,
            },
            *set,
        ),
{
    match c {
        Some(t) => push_comment_block(out, t, set),
        None => {},
    }
}

/// Appends a whole transaction (no trailing line break).
#[verifier::rlimit(100)]
fn push_transaction(out: &mut Vec<u8>, t: &Transaction, set: &SerializerSettings)
    ensures
        final(out)@ == old(out)@ + spec_render_transaction(t@, *set),
{
    push_date(out, &t.date);
    match &t.effective_date {
        Some(d) => {
            out.push(61u8);
            push_date(out, d);
        },
        None => {},
    }
    assert(out@ =~= old(out)@ + spec_render_date(t@.date) + spec_eff_part(t@.effective_date));
    let ghost h1 = out@;
    match &t.status {
        Some(s) => {
            out.push(32u8);
            push_status(out, s);
        },
        None => {},
    }
    assert(out@ =~= h1 + spec_header_status_part(t@.status));
    let ghost h2 = out@;
    match &t.code {
        Some(c) => {
            out.push(32u8);
            out.push(40u8);
            out.extend_from_slice(c.as_slice());
            out.push(41u8);
        },
        None => {},
    }
    assert(out@ =~= h2 + spec_code_part(t@.code));
    out.push(32u8);
    out.extend_from_slice(t.description.as_slice());
    assert(out@ =~= old(out)@ + spec_txn_header(t@));
    let ghost h3 = out@;
    push_opt_comment(out, &t.comment, set);
    assert(out@ =~= h3 + spec_opt_comment(t@.comment, *set));
    let ghost h4 = out@;
    push_postings(out, &t.postings, set);
    assert(out@ =~= h4 + spec_render_postings(t@.postings, *set));
    assert(final(out)@ =~= old(out)@ + spec_render_transaction(t@, *set));
}

/// Appends the period specification.
fn push_period(out: &mut Vec<u8>, p: &Period)
    ensures
        final(out)@ == old(out)@ + spec_render_period(*p),
{
    match p {
        Period::Daily => {
            out.push('d' as u8);
            out.push('a' as u8);
            out.push('i' as u8);
            out.push('l' as u8);
            out.push('y' as u8);
            assert(final(out)@ =~= old(out)@ + kw_daily());
        },
        Period::Weekly => {
            out.push('w' as u8);
            out.push('e' as u8);
            out.push('e' as u8);
            out.push('k' as u8);
            out.push('l' as u8);
            out.push('y' as u8);
            assert(final(out)@ =~= old(out)@ + kw_weekly());
        },
        Period::Monthly => {
            out.push('m' as u8);
            out.push('o' as u8);
            out.push('n' as u8);
            out.push('t' as u8);
            out.push('h' as u8);
            out.push('l' as u8);
            out.push('y' as u8);
            assert(final(out)@ =~= old(out)@ + kw_monthly());
        },
        Period::Yearly => {
            out.push('y' as u8);
            out.push('e' as u8);
            out.push('a' as u8);
            out.push('r' as u8);
            out.push('l' as u8);
            out.push('y' as u8);
            assert(final(out)@ =~= old(out)@ + kw_yearly());
        },
        Period::Date(d) => {
            push_date(out, d);
        },
        Period::EveryNDays(n) => {
            push_every(out, *n);
            out.push('d' as u8);
            out.push('a' as u8);
            out.push('y' as u8);
            out.push('s' as u8);
            assert(final(out)@ =~= old(out)@ + spec_every_n(*n, kw_days()));
        },
        Period::EveryNWeeks(n) => {
            push_every(out, *n);
            out.push('w' as u8);
            out.push('e' as u8);
            out.push('e' as u8);
            out.push('k' as u8);
            out.push('s' as u8);
            assert(final(out)@ =~= old(out)@ + spec_every_n(*n, kw_weeks()));
        },
        Period::EveryNMonths(n) => {
            push_every(out, *n);
            out.push('m' as u8);
            out.push('o' as u8);
            out.push('n' as u8);
            out.push('t' as u8);
            out.push('h' as u8);
            out.push('s' as u8);
            assert(final(out)@ =~= old(out)@ + spec_every_n(*n, kw_months()));
        },
        Period::EveryNYears(n) => {
            push_every(out, *n);
            out.push('y' as u8);
            out.push('e' as u8);
            out.push('a' as u8);
            out.push('r' as u8);
            out.push('s' as u8);
            assert(final(out)@ =~= old(out)@ + spec_every_n(*n, kw_years()));
        },
    }
}

/// Appends `every N ` (the shared prefix of the counted recurrences).
fn push_every(out: &mut Vec<u8>, n: u32)
    ensures
        final(out)@ == old(out)@ + kw_every() + seq![32u8] + spec_digits(n as nat) + seq![32u8],
{
    out.push('e' as u8);
    out.push('v' as u8);
    out.push('e' as u8);
    out.push('r' as u8);
    out.push('y' as u8);
    out.push(32u8);
    push_digits(out, n as u64);
    out.push(32u8);
    assert(final(out)@ =~= old(out)@ + kw_every() + seq![32u8] + spec_digits(n as nat) + seq![
        32u8,
    ]);
}

/// Appends a whole periodic transaction (no trailing line break).
#[verifier::rlimit(100)]
fn push_periodic(out: &mut Vec<u8>, t: &PeriodicTransaction, set: &SerializerSettings)
    ensures
        final(out)@ == old(out)@ + spec_render_periodic(t@, *set),
{
    out.push(126u8);
    out.push(32u8);
    push_period(out, &t.period);
    match &t.start_date {
        Some(d) => {
            out.push(32u8);
            out.push('f' as u8);
            out.push('r' as u8);
            out.push('o' as u8);
            out.push('m' as u8);
            out.push(32u8);
            push_date(out, d);
        },
        None => {},
    }
    match &t.end_date {
        Some(d) => {
            out.push(32u8);
            out.push('t' as u8);
            out.push('o' as u8);
            out.push(32u8);
            push_date(out, d);
        },
        None => {},
    }
    assert(out@ =~= old(out)@ + spec_periodic_header(t@));
    push_opt_comment(out, &t.comment, set);
    push_postings(out, &t.postings, set);
    assert(final(out)@ =~= old(out)@ + spec_render_periodic(t@, *set));
}

/// Appends a commodity-price line (no trailing line break).
fn push_commodity_price(out: &mut Vec<u8>, cp: &CommodityPrice)
    ensures
        final(out)@ == old(out)@ + spec_render_commodity_price(cp@),
{
    out.push(80u8);
    out.push(32u8);
    push_datetime(out, &cp.datetime);
    out.push(32u8);
    out.extend_from_slice(cp.commodity_name.as_slice());
    out.push(32u8);
    push_amount(out, &cp.amount);
    assert(final(out)@ =~= old(out)@ + spec_render_commodity_price(cp@));
}

/// Appends one top-level item (no trailing line break).
#[verifier::rlimit(100)]
fn push_item(out: &mut Vec<u8>, it: &LedgerItem, set: &SerializerSettings)
    ensures
        final(out)@ == old(out)@ + spec_render_item(it@, *set),
{
    match it {
        LedgerItem::EmptyLine => {},
        LedgerItem::LineComment(text) => {
            out.push(59u8);
            out.extend_from_slice(text.as_slice());
        },
        LedgerItem::Transaction(t) => push_transaction(out, t, set),
        LedgerItem::CommodityPrice(cp) => push_commodity_price(out, cp),
        LedgerItem::Include(path) => {
            out.push('i' as u8);
            out.push('n' as u8);
            out.push('c' as u8);
            out.push('l' as u8);
            out.push('u' as u8);
            out.push('d' as u8);
            out.push('e' as u8);
            out.push(32u8);
            out.extend_from_slice(path.as_slice());
            assert(out@ =~= old(out)@ + kw_directive() + seq![32u8] + path@);
        },
        LedgerItem::PeriodicTransaction(t) => push_periodic(out, t, set),
    }
    assert(final(out)@ =~= old(out)@ + spec_render_item(it@, *set));
}

/// Appends the whole document, each item followed by one line break.
fn push_ledger(out: &mut Vec<u8>, l: &Ledger, set: &SerializerSettings)
    ensures
        final(out)@ == old(out)@ + spec_render_ledger(l@, *set),
{
    let ghost itv = l.items@.map_values(|it: LedgerItem| it@);
    let mut i: usize = 0;
    while i < l.items.len()
        invariant
            i <= l.items.len(),
            itv == l.items@.map_values(|it: LedgerItem| it@),
            out@ == old(out)@ + spec_render_items(itv.subrange(0, i as int), *set),
        decreases l.items.len() - i,
    {
        push_item(out, &l.items[i], set);
        out.push(10u8);
        i = i + 1;
        proof {
            assert(itv.subrange(0, i as int).drop_last() =~= itv.subrange(0, i - 1));
            assert(itv.subrange(0, i as int).last() == l.items@[i - 1]@);
            assert(out@ =~= old(out)@ + spec_render_items(itv.subrange(0, i as int), *set));
        }
    }
    assert(itv.subrange(0, itv.len() as int) =~= itv);
}

impl Posting {
    /// Renders one posting (with its comment block, without indentation).
    pub fn to_string_pretty(&self, settings: &SerializerSettings) -> (r: Vec<u8>)
        ensures
            r@ == spec_render_posting(self@, *settings),
    {
        let mut out: Vec<u8> = Vec::new();
        push_posting(&mut out, self, settings);
        assert(out@ =~= spec_render_posting(self@, *settings));
        out
    }
}

impl Transaction {
    /// Renders a whole transaction, without a trailing line break.
    pub fn to_string_pretty(&self, settings: &SerializerSettings) -> (r: Vec<u8>)
        ensures
            r@ == spec_render_transaction(self@, *settings),
    {
        let mut out: Vec<u8> = Vec::new();
        push_transaction(&mut out, self, settings);
        assert(out@ =~= spec_render_transaction(self@, *settings));
        out
    }
}

impl PeriodicTransaction {
    /// Renders a whole periodic transaction, without a trailing line break.
    pub fn to_string_pretty(&self, settings: &SerializerSettings) -> (r: Vec<u8>)
        ensures
            r@ == spec_render_periodic(self@, *settings),
    {
        let mut out: Vec<u8> = Vec::new();
        push_periodic(&mut out, self, settings);
        assert(out@ =~= spec_render_periodic(self@, *settings));
        out
    }
}

impl CommodityPrice {
    /// Renders a commodity-price line, without a trailing line break.
    pub fn to_string_pretty(&self, settings: &SerializerSettings) -> (r: Vec<u8>)
        ensures
            r@ == spec_render_commodity_price(self@),
    {
        let mut out: Vec<u8> = Vec::new();
        push_commodity_price(&mut out, self);
        assert(out@ =~= spec_render_commodity_price(self@));
        out
    }
}

impl LedgerItem {
    /// Renders one top-level item, without a trailing line break.
    pub fn to_string_pretty(&self, settings: &SerializerSettings) -> (r: Vec<u8>)
        ensures
            r@ == spec_render_item(self@, *settings),
    {
        let mut out: Vec<u8> = Vec::new();
        push_item(&mut out, self, settings);
        assert(out@ =~= spec_render_item(self@, *settings));
        out
    }
}

impl Ledger {
    /// Renders the whole document: the items in order, each followed by one
    /// line break.
    pub fn to_string_pretty(&self, settings: &SerializerSettings) -> (r: Vec<u8>)
        ensures
            r@ == spec_render_ledger(self@, *settings),
    {
        let mut out: Vec<u8> = Vec::new();
        push_ledger(&mut out, self, settings);
        assert(out@ =~= spec_render_ledger(self@, *settings));
        out
    }
}

impl TransactionStatus {
    /// Renders the status glyph.
    pub fn to_string_pretty(&self, settings: &SerializerSettings) -> (r: Vec<u8>)
        ensures
            r@ == spec_render_status(*self),
    {
        let mut out: Vec<u8> = Vec::new();
        push_status(&mut out, self);
        assert(out@ =~= spec_render_status(*self));
        out
    }
}

impl Amount {
    /// Renders the amount.
    pub fn to_string_pretty(&self, settings: &SerializerSettings) -> (r: Vec<u8>)
        ensures
            r@ == spec_render_amount(self@),
    {
        let mut out: Vec<u8> = Vec::new();
        push_amount(&mut out, self);
        assert(out@ =~= spec_render_amount(self@));
        out
    }
}

impl Balance {
    /// Renders the balance assertion.
    pub fn to_string_pretty(&self, settings: &SerializerSettings) -> (r: Vec<u8>)
        ensures
            r@ == spec_render_balance(self@),
    {
        let mut out: Vec<u8> = Vec::new();
        push_balance(&mut out, self);
        assert(out@ =~= spec_render_balance(self@));
        out
    }
}

impl PostingAmount {
    /// Renders the amount with its lot and posted prices.
    pub fn to_string_pretty(&self, settings: &SerializerSettings) -> (r: Vec<u8>)
        ensures
            r@ == spec_render_posting_amount(self@),
    {
        let mut out: Vec<u8> = Vec::new();
        push_posting_amount(&mut out, self);
        assert(out@ =~= spec_render_posting_amount(self@));
        out
    }
}

} // verus!
