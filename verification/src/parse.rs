//! The parser: a recursive-descent, ordered-choice grammar over raw bytes.
//! Every grammar rule has a total specification function
//! (`spec_parse_*: input × position → result`), and each executable parser
//! is proved to return exactly what its specification function says.

use vstd::prelude::*;
use crate::model::{
    Amount, AmountV, Balance, BalanceV, Commodity, CommodityPosition, CommodityPriceV,
    CommodityV, Date, DateTime, Decimal, LedgerItemV, LedgerV, Period, PeriodicTransactionV,
    Posting, PostingAmount, PostingAmountV, PostingV, Price, PriceV, Reality, TransactionStatus,
    TransactionV,
};
use crate::render::{
    kw_daily, kw_days, kw_directive, kw_every, kw_from, kw_monthly, kw_months, kw_to, kw_weekly,
    kw_weeks, kw_yearly, kw_years,
};
use crate::text::pow10;

verus! {

/// The kinds of parse failure: a grammar mismatch, a structurally valid
/// date that is not a real calendar date, and input that ended inside a
/// construct (never produced by this fully-buffered parser; it exists for
/// callers that distinguish it).
#[derive(Debug, PartialEq, Eq, Structural, Clone, Copy)]
pub enum CustomError {
    SyntaxError,
    NonExistingDate,
    IncompleteInput,
}

/// A parse failure: its kind and the byte offset of the construct that
/// failed.
#[derive(Debug, PartialEq, Eq, Structural, Clone, Copy)]
pub struct ParseError {
    pub kind: CustomError,
    pub pos: usize,
}

/// Ghost mirror of `ParseError`.
pub ghost struct PErr {
    pub kind: CustomError,
    pub pos: int,
}

impl View for ParseError {
    type V = PErr;

    open spec fn view(&self) -> PErr {
        PErr { kind: self.kind, pos: self.pos as int }
    }
}

/// ASCII decimal digit.
pub open spec fn spec_is_digit(b: u8) -> bool {
    48 <= b <= 57
}

/// A byte that may appear in a bare commodity name: a letter, `$`, or any
/// byte above the ASCII range (so multi-byte characters pass through).
pub open spec fn spec_is_commodity_byte(b: u8) -> bool {
    (97 <= b <= 122) || (65 <= b <= 90) || b == 36 || b >= 128
}

/// Space, tab, carriage return or line feed.
pub open spec fn spec_is_white(b: u8) -> bool {
    b == 32 || b == 9 || b == 13 || b == 10
}

/// A date separator: `-`, `/` or `.`.
pub open spec fn spec_is_date_sep(b: u8) -> bool {
    b == 45 || b == 47 || b == 46
}

fn is_digit(b: u8) -> (r: bool)
    ensures
        r == spec_is_digit(b),
{
    48 <= b && b <= 57
}

fn is_commodity_char(b: u8) -> (r: bool)
    ensures
        r == spec_is_commodity_byte(b),
{
    (97 <= b && b <= 122) || (65 <= b && b <= 90) || b == 36 || b >= 128
}

fn is_white_char(b: u8) -> (r: bool)
    ensures
        r == spec_is_white(b),
{
    b == 32 || b == 9 || b == 13 || b == 10
}

fn is_date_sep(b: u8) -> (r: bool)
    ensures
        r == spec_is_date_sep(b),
{
    b == 45 || b == 47 || b == 46
}

/// First position at or after `pos` (up to `end`) holding a non-whitespace
/// byte.
pub open spec fn spec_skip_ws(s: Seq<u8>, pos: int, end: int) -> int
    decreases end - pos,
{
    if pos < end && spec_is_white(s[pos]) {
        spec_skip_ws(s, pos + 1, end)
    } else {
        pos
    }
}


/// First position at or after `pos` (up to `end`) holding a non-digit.
pub open spec fn spec_digits_end(s: Seq<u8>, pos: int, end: int) -> int
    decreases end - pos,
{
    if pos < end && spec_is_digit(s[pos]) {
        spec_digits_end(s, pos + 1, end)
    } else {
        pos
    }
}

pub proof fn lemma_digits_end_bounds(s: Seq<u8>, pos: int, end: int)
    requires
        0 <= pos <= end,
    ensures
        pos <= spec_digits_end(s, pos, end) <= end,
    decreases end - pos,
{
    if pos < end && spec_is_digit(s[pos]) {
        lemma_digits_end_bounds(s, pos + 1, end);
    }
}

/// First position at or after `pos` (up to `end`) holding a byte that
/// cannot continue a bare commodity name.
pub open spec fn spec_commodity_end(s: Seq<u8>, pos: int, end: int) -> int
    decreases end - pos,
{
    if pos < end && spec_is_commodity_byte(s[pos]) {
        spec_commodity_end(s, pos + 1, end)
    } else {
        pos
    }
}


/// First position at or after `pos` (up to `end`) holding a double quote.
pub open spec fn spec_quote_end(s: Seq<u8>, pos: int, end: int) -> int
    decreases end - pos,
{
    if pos < end && s[pos] != 34 {
        spec_quote_end(s, pos + 1, end)
    } else {
        pos
    }
}


/// First position at or after `pos` (up to `end`) holding a line feed.
pub open spec fn spec_eol(s: Seq<u8>, pos: int, end: int) -> int
    decreases end - pos,
{
    if pos < end && s[pos] != 10 {
        spec_eol(s, pos + 1, end)
    } else {
        pos
    }
}


fn skip_ws(s: &[u8], pos: usize, end: usize) -> (r: usize)
    requires
        pos <= end <= s@.len(),
    ensures
        r == spec_skip_ws(s@, pos as int, end as int),
        pos <= r <= end,
{
    let mut i = pos;
    while i < end && is_white_char(s[i])
        invariant
            pos <= i <= end <= s@.len(),
            spec_skip_ws(s@, i as int, end as int) == spec_skip_ws(s@, pos as int, end as int),
        decreases end - i,
    {
        i = i + 1;
    }
    i
}

fn digits_end(s: &[u8], pos: usize, end: usize) -> (r: usize)
    requires
        pos <= end <= s@.len(),
    ensures
        r == spec_digits_end(s@, pos as int, end as int),
        pos <= r <= end,
{
    let mut i = pos;
    while i < end && is_digit(s[i])
        invariant
            pos <= i <= end <= s@.len(),
            spec_digits_end(s@, i as int, end as int) == spec_digits_end(
                s@,
                pos as int,
                end as int,
            ),
        decreases end - i,
    {
        i = i + 1;
    }
    i
}

fn commodity_end(s: &[u8], pos: usize, end: usize) -> (r: usize)
    requires
        pos <= end <= s@.len(),
    ensures
        r == spec_commodity_end(s@, pos as int, end as int),
        pos <= r <= end,
{
    let mut i = pos;
    while i < end && is_commodity_char(s[i])
        invariant
            pos <= i <= end <= s@.len(),
            spec_commodity_end(s@, i as int, end as int) == spec_commodity_end(
                s@,
                pos as int,
                end as int,
            ),
        decreases end - i,
    {
        i = i + 1;
    }
    i
}

fn quote_end(s: &[u8], pos: usize, end: usize) -> (r: usize)
    requires
        pos <= end <= s@.len(),
    ensures
        r == spec_quote_end(s@, pos as int, end as int),
        pos <= r <= end,
{
    let mut i = pos;
    while i < end && s[i] != 34
        invariant
            pos <= i <= end <= s@.len(),
            spec_quote_end(s@, i as int, end as int) == spec_quote_end(
                s@,
                pos as int,
                end as int,
            ),
        decreases end - i,
    {
        i = i + 1;
    }
    i
}

fn eol(s: &[u8], pos: usize, end: usize) -> (r: usize)
    requires
        pos <= end <= s@.len(),
    ensures
        r == spec_eol(s@, pos as int, end as int),
        pos <= r <= end,
{
    let mut i = pos;
    while i < end && s[i] != 10
        invariant
            pos <= i <= end <= s@.len(),
            spec_eol(s@, i as int, end as int) == spec_eol(s@, pos as int, end as int),
        decreases end - i,
    {
        i = i + 1;
    }
    i
}

/// The value of the digit byte `b`, or zero for a non-digit.
pub open spec fn spec_digit_val(b: u8) -> nat {
    if spec_is_digit(b) {
        (b - 48) as nat
    } else {
        0
    }
}

/// The number written by the digits `s[a..b)`, most significant first.
pub open spec fn spec_num(s: Seq<u8>, a: int, b: int) -> nat
    decreases b - a,
{
    if b <= a {
        0
    } else {
        spec_num(s, a, b - 1) * 10 + spec_digit_val(s[b - 1])
    }
}

/// A longer digit run never writes a smaller number.
pub proof fn lemma_num_mono(s: Seq<u8>, a: int, b: int, c: int)
    requires
        a <= b <= c,
    ensures
        spec_num(s, a, c) >= spec_num(s, a, b),
    decreases c - b,
{
    if b < c {
        lemma_num_mono(s, a, b, c - 1);
        assert(spec_num(s, a, c) == spec_num(s, a, c - 1) * 10 + spec_digit_val(s[c - 1]));
        assert(spec_num(s, a, c - 1) * 10 >= spec_num(s, a, c - 1)) by (nonlinear_arith);
    }
}

/// Structural shape of a date token: four digits, a separator, two digits,
/// a separator, two digits. The two separators are matched independently.
pub open spec fn spec_date_shape(s: Seq<u8>, pos: int, end: int) -> bool {
    pos + 10 <= end && spec_is_digit(s[pos]) && spec_is_digit(s[pos + 1]) && spec_is_digit(
        s[pos + 2],
    ) && spec_is_digit(s[pos + 3]) && spec_is_date_sep(s[pos + 4]) && spec_is_digit(s[pos + 5])
        && spec_is_digit(s[pos + 6]) && spec_is_date_sep(s[pos + 7]) && spec_is_digit(s[pos + 8])
        && spec_is_digit(s[pos + 9])
}

/// The date triple written by a date-shaped token.
pub open spec fn spec_date_at(s: Seq<u8>, pos: int) -> Date {
    Date {
        year: spec_num(s, pos, pos + 4) as u32,
        month: spec_num(s, pos + 5, pos + 7) as u32,
        day: spec_num(s, pos + 8, pos + 10) as u32,
    }
}

/// A date token: ten bytes; fails with a syntax error when the shape is
/// wrong, and with `NonExistingDate` when the shape is right but the triple
/// is not a real calendar date.
pub open spec fn spec_parse_date(s: Seq<u8>, pos: int, end: int) -> Result<(Date, int), PErr> {
    if !spec_date_shape(s, pos, end) {
        Err(PErr { kind: CustomError::SyntaxError, pos })
    } else if !spec_date_at(s, pos).valid() {
        Err(PErr { kind: CustomError::NonExistingDate, pos })
    } else {
        Ok((spec_date_at(s, pos), pos + 10))
    }
}

/// Checks that a date is a real calendar date.
fn date_valid_exec(d: &Date) -> (r: bool)
    ensures
        r == d.valid(),
{
    let dim: u32 = if d.month == 2 {
        if (d.year % 4 == 0 && d.year % 100 != 0) || d.year % 400 == 0 {
            29
        } else {
            28
        }
    } else if d.month == 4 || d.month == 6 || d.month == 9 || d.month == 11 {
        30
    } else {
        31
    };
    d.year <= 9999 && 1 <= d.month && d.month <= 12 && 1 <= d.day && d.day <= dim
}

/// Parses a date token starting at `pos`.
fn parse_date_at(s: &[u8], pos: usize, end: usize) -> (r: Result<(Date, usize), ParseError>)
    requires
        pos <= end <= s@.len(),
    ensures
        ({
            let sp = spec_parse_date(s@, pos as int, end as int);
            match r {
                Ok(t) => sp == Result::<(Date, int), PErr>::Ok((t.0, t.1 as int)) && t.1 <= end,
                Err(e) => sp == Result::<(Date, int), PErr>::Err(e@),
            }
        }),
{
    if end - pos < 10 {
        return Err(ParseError { kind: CustomError::SyntaxError, pos });
    }
    let shape_ok = is_digit(s[pos]) && is_digit(s[pos + 1]) && is_digit(s[pos + 2]) && is_digit(
        s[pos + 3],
    ) && is_date_sep(s[pos + 4]) && is_digit(s[pos + 5]) && is_digit(s[pos + 6]) && is_date_sep(
        s[pos + 7],
    ) && is_digit(s[pos + 8]) && is_digit(s[pos + 9]);
    if !shape_ok {
        return Err(ParseError { kind: CustomError::SyntaxError, pos });
    }
    let y: u32 = (((s[pos] - 48) as u32 * 10 + (s[pos + 1] - 48) as u32) * 10 + (s[pos + 2]
        - 48) as u32) * 10 + (s[pos + 3] - 48) as u32;
    let mo: u32 = (s[pos + 5] - 48) as u32 * 10 + (s[pos + 6] - 48) as u32;
    let da: u32 = (s[pos + 8] - 48) as u32 * 10 + (s[pos + 9] - 48) as u32;
    proof {
        let p = pos as int;
        assert(spec_num(s@, p, p) == 0);
        assert(spec_num(s@, p, p + 1) == spec_digit_val(s@[p]));
        assert(spec_num(s@, p, p + 2) == spec_num(s@, p, p + 1) * 10 + spec_digit_val(
            s@[p + 1],
        ));
        assert(spec_num(s@, p, p + 3) == spec_num(s@, p, p + 2) * 10 + spec_digit_val(
            s@[p + 2],
        ));
        assert(spec_num(s@, p, p + 4) == spec_num(s@, p, p + 3) * 10 + spec_digit_val(
            s@[p + 3],
        ));
        assert(spec_num(s@, p + 5, p + 5) == 0);
        assert(spec_num(s@, p + 5, p + 7) == spec_num(s@, p + 5, p + 6) * 10 + spec_digit_val(
            s@[p + 6],
        ));
        assert(spec_num(s@, p + 8, p + 8) == 0);
        assert(spec_num(s@, p + 8, p + 10) == spec_num(s@, p + 8, p + 9) * 10 + spec_digit_val(
            s@[p + 9],
        ));
        assert(y == spec_num(s@, p, p + 4));
        assert(mo == spec_num(s@, p + 5, p + 7));
        assert(da == spec_num(s@, p + 8, p + 10));
    }
    let d = Date { year: y, month: mo, day: da };
    assert(d == spec_date_at(s@, pos as int));
    if date_valid_exec(&d) {
        Ok((d, pos + 10))
    } else {
        Err(ParseError { kind: CustomError::NonExistingDate, pos })
    }
}

/// The quantity value accumulated after the integer digits `[p1, ie)` and
/// the fraction digits `[ie + 1, j)`.
pub open spec fn spec_mval(s: Seq<u8>, p1: int, ie: int, j: int) -> nat {
    spec_num(s, p1, ie) * pow10((j - ie - 1) as nat) + spec_num(s, ie + 1, j)
}

pub proof fn lemma_mval_step(s: Seq<u8>, p1: int, ie: int, j: int)
    requires
        ie + 1 <= j,
    ensures
        spec_mval(s, p1, ie, j + 1) == spec_mval(s, p1, ie, j) * 10 + spec_digit_val(s[j]),
{
    let k = (j - ie - 1) as nat;
    let n = spec_num(s, p1, ie);
    let f = spec_num(s, ie + 1, j);
    assert(pow10((k + 1) as nat) == 10 * pow10(k));
    assert(spec_num(s, ie + 1, j + 1) == f * 10 + spec_digit_val(s[j]));
    assert(n * (10 * pow10(k)) == (n * pow10(k)) * 10) by (nonlinear_arith);
}

pub proof fn lemma_mval_mono(s: Seq<u8>, p1: int, ie: int, a: int, b: int)
    requires
        ie + 1 <= a <= b,
    ensures
        spec_mval(s, p1, ie, b) >= spec_mval(s, p1, ie, a),
    decreases b - a,
{
    if a < b {
        lemma_mval_mono(s, p1, ie, a, b - 1);
        lemma_mval_step(s, p1, ie, b - 1);
    }
}

/// End of the fraction part of a quantity token: present only when a point
/// directly follows the integer digits and a digit directly follows it.
pub open spec fn spec_frac_end(s: Seq<u8>, ie: int, end: int) -> int {
    if ie < end && s[ie] == 46 && spec_digits_end(s, ie + 1, end) > ie + 1 {
        spec_digits_end(s, ie + 1, end)
    } else {
        ie
    }
}

/// A quantity token: optional minus sign, one or more digits, optionally a
/// point and one or more digits. The scale is the number of fraction
/// digits; values out of the decimal range fail with a syntax error.
/// Position after the optional minus sign of a quantity token.
pub open spec fn spec_qty_p1(s: Seq<u8>, pos: int, end: int) -> int {
    if pos < end && s[pos] == 45 {
        pos + 1
    } else {
        pos
    }
}

pub open spec fn spec_parse_quantity(s: Seq<u8>, pos: int, end: int) -> Result<
    (Decimal, int),
    PErr,
> {
    let p1 = spec_qty_p1(s, pos, end);
    let ie = spec_digits_end(s, p1, end);
    if ie == p1 {
        Err(PErr { kind: CustomError::SyntaxError, pos })
    } else {
        let fe = spec_frac_end(s, ie, end);
        let scale = if fe == ie {
            0
        } else {
            fe - ie - 1
        };
        let m = if fe == ie {
            spec_num(s, p1, ie)
        } else {
            spec_mval(s, p1, ie, fe)
        };
        if scale <= 18 && m < 1000000000000000000 {
            let mi: int = if p1 > pos {
                -(m as int)
            } else {
                m as int
            };
            Ok((Decimal { mantissa: mi as i64, scale: scale as u32 }, fe))
        } else {
            Err(PErr { kind: CustomError::SyntaxError, pos })
        }
    }
}

/// Parses a quantity token starting at `pos`.
#[verifier::rlimit(100)]
fn parse_quantity_at(s: &[u8], pos: usize, end: usize) -> (r: Result<
    (Decimal, usize),
    ParseError,
>)
    requires
        pos <= end <= s@.len(),
    ensures
        ({
            let sp = spec_parse_quantity(s@, pos as int, end as int);
            match r {
                Ok(t) => sp == Result::<(Decimal, int), PErr>::Ok((t.0, t.1 as int)) && t.1 <= end
                    && t.0.wf(),
                Err(e) => sp == Result::<(Decimal, int), PErr>::Err(e@),
            }
        }),
{
    let neg = pos < end && s[pos] == 45;
    let p1 = if neg {
        pos + 1
    } else {
        pos
    };
    let ie = digits_end(s, p1, end);
    if ie == p1 {
        return Err(ParseError { kind: CustomError::SyntaxError, pos });
    }
    let fe = if ie < end && s[ie] == 46 {
        let de = digits_end(s, ie + 1, end);
        if de > ie + 1 {
            de
        } else {
            ie
        }
    } else {
        ie
    };
    assert(fe == spec_frac_end(s@, ie as int, end as int));
    let scale = if fe == ie {
        0
    } else {
        fe - ie - 1
    };
    if scale > 18 {
        return Err(ParseError { kind: CustomError::SyntaxError, pos });
    }
    // accumulate the integer digits
    let mut acc: u64 = 0;
    let mut j = p1;
    while j < ie
        invariant
            pos <= p1 <= j <= ie <= fe <= end <= s@.len(),
            p1 == spec_qty_p1(s@, pos as int, end as int),
            ie == spec_digits_end(s@, p1 as int, end as int),
            ie > p1,
            fe == spec_frac_end(s@, ie as int, end as int),
            scale as int == (if fe == ie { 0int } else { fe - ie - 1 }),
            scale <= 18,
            acc == spec_num(s@, p1 as int, j as int),
            acc < 1000000000000000000,
        decreases ie - j,
    {
        proof {
            lemma_digits_end_in_range(s@, p1 as int, end as int, j as int);
        }
        let d = (s[j] - 48) as u64;
        proof {
            assert(spec_num(s@, p1 as int, j + 1) == acc * 10 + spec_digit_val(s@[j as int]));
        }
        if acc > 99999999999999999 {
            proof {
                assert(spec_num(s@, p1 as int, j + 1) >= 1000000000000000000);
                lemma_num_mono(s@, p1 as int, j + 1, ie as int);
                if fe > ie {
                    lemma_mval_mono_start(s@, p1 as int, ie as int, fe as int);
                }
            }
            return Err(ParseError { kind: CustomError::SyntaxError, pos });
        }
        acc = acc * 10 + d;
        j = j + 1;
    }
    // accumulate the fraction digits
    if fe > ie {
        let mut k = ie + 1;
        proof {
            let n0 = spec_num(s@, p1 as int, ie as int);
            assert(pow10(0) == 1);
            assert(spec_num(s@, ie + 1, ie + 1) == 0);
            assert(spec_mval(s@, p1 as int, ie as int, ie + 1) == n0 * pow10(0));
            assert(n0 * 1 == n0) by (nonlinear_arith);
        }
        while k < fe
            invariant
                pos <= p1 < ie < fe <= end <= s@.len(),
                ie + 1 <= k <= fe,
                p1 == spec_qty_p1(s@, pos as int, end as int),
                ie == spec_digits_end(s@, p1 as int, end as int),
                fe == spec_frac_end(s@, ie as int, end as int),
                fe == spec_digits_end(s@, ie + 1, end as int),
                scale as int == fe - ie - 1,
                scale <= 18,
                acc == spec_mval(s@, p1 as int, ie as int, k as int),
                acc < 1000000000000000000,
            decreases fe - k,
        {
            proof {
                lemma_digits_end_in_range(s@, ie + 1, end as int, k as int);
            }
            let d = (s[k] - 48) as u64;
            proof {
                lemma_mval_step(s@, p1 as int, ie as int, k as int);
            }
            if acc > 99999999999999999 {
                proof {
                    lemma_mval_mono(s@, p1 as int, ie as int, k + 1, fe as int);
                }
                return Err(ParseError { kind: CustomError::SyntaxError, pos });
            }
            acc = acc * 10 + d;
            k = k + 1;
        }
    }
    let mantissa: i64 = if neg {
        -(acc as i64)
    } else {
        acc as i64
    };
    Ok((Decimal { mantissa, scale: scale as u32 }, fe))
}

/// Every position before the end of a digit run holds a digit.
pub proof fn lemma_digits_end_in_range(s: Seq<u8>, pos: int, end: int, j: int)
    requires
        0 <= pos <= j < spec_digits_end(s, pos, end),
    ensures
        spec_is_digit(s[j]),
    decreases j - pos,
{
    lemma_digits_end_bounds(s, pos, end);
    if j > pos {
        lemma_digits_end_in_range(s, pos + 1, end, j);
    }
}

/// A commodity token: either a double-quoted string (quotes excluded from
/// the value, no escapes, at least one byte), or a bare run of commodity
/// bytes.
pub open spec fn spec_parse_commodity(s: Seq<u8>, pos: int, end: int) -> Result<
    (Seq<u8>, int),
    PErr,
> {
    if pos < end && s[pos] == 34 {
        let q = spec_quote_end(s, pos + 1, end);
        if q < end && q > pos + 1 {
            Ok((s.subrange(pos + 1, q), q + 1))
        } else {
            Err(PErr { kind: CustomError::SyntaxError, pos })
        }
    } else if pos < end && spec_is_commodity_byte(s[pos]) {
        let e = spec_commodity_end(s, pos, end);
        Ok((s.subrange(pos, e), e))
    } else {
        Err(PErr { kind: CustomError::SyntaxError, pos })
    }
}

/// Parses a commodity token starting at `pos`.
fn parse_commodity_at(s: &[u8], pos: usize, end: usize) -> (r: Result<
    (Vec<u8>, usize),
    ParseError,
>)
    requires
        pos <= end <= s@.len(),
    ensures
        ({
            let sp = spec_parse_commodity(s@, pos as int, end as int);
            match r {
                Ok(t) => sp == Result::<(Seq<u8>, int), PErr>::Ok((t.0@, t.1 as int)) && t.1
                    <= end,
                Err(e) => sp == Result::<(Seq<u8>, int), PErr>::Err(e@),
            }
        }),
{
    if pos < end && s[pos] == 34 {
        let q = quote_end(s, pos + 1, end);
        if q < end && q > pos + 1 {
            let mut name: Vec<u8> = Vec::new();
            name.extend_from_slice(&s[pos + 1..q]);
            assert(name@ =~= s@.subrange(pos + 1, q as int));
            Ok((name, q + 1))
        } else {
            Err(ParseError { kind: CustomError::SyntaxError, pos })
        }
    } else if pos < end && is_commodity_char(s[pos]) {
        let e = commodity_end(s, pos, end);
        let mut name: Vec<u8> = Vec::new();
        name.extend_from_slice(&s[pos..e]);
        assert(name@ =~= s@.subrange(pos as int, e as int));
        Ok((name, e))
    } else {
        Err(ParseError { kind: CustomError::SyntaxError, pos })
    }
}

/// The first amount alternative: optional minus sign, commodity, quantity,
/// with whitespace permitted between the tokens; the commodity is
/// left-positioned and the quantity is negated when the minus sign
/// appeared before the commodity.
pub open spec fn spec_amount_alt1(s: Seq<u8>, p1: int, neg: bool, end: int) -> Option<
    (AmountV, int),
> {
    match spec_parse_commodity(s, p1, end) {
        Ok((name, p2)) => {
            let p3 = spec_skip_ws(s, p2, end);
            match spec_parse_quantity(s, p3, end) {
                Ok((q, p4)) => Some(
                    (
                        AmountV {
                            quantity: if neg {
                                Decimal {
                                    mantissa: (-(q.mantissa as int)) as i64,
                                    scale: q.scale,
                                }
                            } else {
                                q
                            },
                            commodity: CommodityV {
                                name,
                                position: CommodityPosition::Left,
                            },
                        },
                        p4,
                    ),
                ),
                Err(_) => None,
            }
        },
        Err(_) => None,
    }
}

/// The second amount alternative: quantity then commodity, the commodity
/// right-positioned, the quantity's sign taken literally.
pub open spec fn spec_amount_alt2(s: Seq<u8>, p0: int, end: int, pos: int) -> Result<
    (AmountV, int),
    PErr,
> {
    match spec_parse_quantity(s, p0, end) {
        Ok((q, p2)) => {
            let p3 = spec_skip_ws(s, p2, end);
            match spec_parse_commodity(s, p3, end) {
                Ok((name, p4)) => Ok(
                    (
                        AmountV {
                            quantity: q,
                            commodity: CommodityV {
                                name,
                                position: CommodityPosition::Right,
                            },
                        },
                        p4,
                    ),
                ),
                Err(_) => Err(PErr { kind: CustomError::SyntaxError, pos }),
            }
        },
        Err(_) => Err(PErr { kind: CustomError::SyntaxError, pos }),
    }
}

/// An amount: ordered choice between the two alternatives, after skipping
/// leading whitespace.
pub open spec fn spec_parse_amount(s: Seq<u8>, pos: int, end: int) -> Result<
    (AmountV, int),
    PErr,
> {
    let p0 = spec_skip_ws(s, pos, end);
    let neg = p0 < end && s[p0] == 45;
    let p1 = if neg {
        spec_skip_ws(s, p0 + 1, end)
    } else {
        p0
    };
    match spec_amount_alt1(s, p1, neg, end) {
        Some(t) => Ok(t),
        None => spec_amount_alt2(s, p0, end, pos),
    }
}

/// Parses an amount starting at `pos`.
#[verifier::rlimit(100)]
fn parse_amount_at(s: &[u8], pos: usize, end: usize) -> (r: Result<(Amount, usize), ParseError>)
    requires
        pos <= end <= s@.len(),
    ensures
        ({
            let sp = spec_parse_amount(s@, pos as int, end as int);
            match r {
                Ok(t) => sp == Result::<(AmountV, int), PErr>::Ok((t.0@, t.1 as int)) && t.1
                    <= end,
                Err(e) => sp == Result::<(AmountV, int), PErr>::Err(e@),
            }
        }),
{
    let p0 = skip_ws(s, pos, end);
    let neg = p0 < end && s[p0] == 45;
    let p1 = if neg {
        skip_ws(s, p0 + 1, end)
    } else {
        p0
    };
    match parse_commodity_at(s, p1, end) {
        Ok((name, p2)) => {
            let p3 = skip_ws(s, p2, end);
            match parse_quantity_at(s, p3, end) {
                Ok((q, p4)) => {
                    let quantity = if neg {
                        Decimal { mantissa: -q.mantissa, scale: q.scale }
                    } else {
                        q
                    };
                    let a = Amount {
                        quantity,
                        commodity: Commodity { name, position: CommodityPosition::Left },
                    };
                    assert(spec_amount_alt1(s@, p1 as int, neg, end as int) == Some(
                        (a@, p4 as int),
                    ));
                    return Ok((a, p4));
                },
                Err(_) => {},
            }
        },
        Err(_) => {},
    }
    assert(spec_amount_alt1(s@, p1 as int, neg, end as int) is None);
    match parse_quantity_at(s, p0, end) {
        Ok((q, p2)) => {
            let p3 = skip_ws(s, p2, end);
            match parse_commodity_at(s, p3, end) {
                Ok((name, p4)) => {
                    let a = Amount {
                        quantity: q,
                        commodity: Commodity { name, position: CommodityPosition::Right },
                    };
                    Ok((a, p4))
                },
                Err(_) => Err(ParseError { kind: CustomError::SyntaxError, pos }),
            }
        },
        Err(_) => Err(ParseError { kind: CustomError::SyntaxError, pos }),
    }
}

/// First position at or after `pos` (up to `end`) holding the byte `b`.
pub open spec fn spec_find(s: Seq<u8>, pos: int, end: int, b: u8) -> int
    decreases end - pos,
{
    if pos < end && s[pos] != b {
        spec_find(s, pos + 1, end, b)
    } else {
        pos
    }
}


fn find_byte(s: &[u8], pos: usize, end: usize, b: u8) -> (r: usize)
    requires
        pos <= end <= s@.len(),
    ensures
        r == spec_find(s@, pos as int, end as int, b),
        pos <= r <= end,
{
    let mut i = pos;
    while i < end && s[i] != b
        invariant
            pos <= i <= end <= s@.len(),
            spec_find(s@, i as int, end as int, b) == spec_find(s@, pos as int, end as int, b),
        decreases end - i,
    {
        i = i + 1;
    }
    i
}

/// End of an account name: the first tab, the first space that is followed
/// by another space or tab or the end of the line, or the end of the line.
pub open spec fn spec_account_end(s: Seq<u8>, pos: int, end: int) -> int
    decreases end - pos,
{
    if pos < end && s[pos] != 9 && !(s[pos] == 32 && (pos + 1 >= end || s[pos + 1] == 32 || s[pos
        + 1] == 9)) {
        spec_account_end(s, pos + 1, end)
    } else {
        pos
    }
}


fn account_end(s: &[u8], pos: usize, end: usize) -> (r: usize)
    requires
        pos <= end <= s@.len(),
    ensures
        r == spec_account_end(s@, pos as int, end as int),
        pos <= r <= end,
{
    let mut i = pos;
    while i < end && s[i] != 9 && !(s[i] == 32 && (i + 1 >= end || s[i + 1] == 32 || s[i + 1]
        == 9))
        invariant
            pos <= i <= end <= s@.len(),
            spec_account_end(s@, i as int, end as int) == spec_account_end(
                s@,
                pos as int,
                end as int,
            ),
        decreases end - i,
    {
        i = i + 1;
    }
    i
}

/// `text` without its trailing spaces and tabs.
pub open spec fn spec_trim(t: Seq<u8>) -> Seq<u8>
    decreases t.len(),
{
    if t.len() > 0 && (t.last() == 32 || t.last() == 9) {
        spec_trim(t.drop_last())
    } else {
        t
    }
}

/// Copies `s[a..b)` with trailing spaces and tabs removed.
fn copy_trimmed(s: &[u8], a: usize, b: usize) -> (r: Vec<u8>)
    requires
        a <= b <= s@.len(),
    ensures
        r@ == spec_trim(s@.subrange(a as int, b as int)),
{
    let mut e = b;
    while e > a && (s[e - 1] == 32 || s[e - 1] == 9)
        invariant
            a <= e <= b <= s@.len(),
            spec_trim(s@.subrange(a as int, e as int)) == spec_trim(
                s@.subrange(a as int, b as int),
            ),
        decreases e,
    {
        proof {
            assert(s@.subrange(a as int, e as int).drop_last() =~= s@.subrange(a as int, e - 1));
        }
        e = e - 1;
    }
    let mut r: Vec<u8> = Vec::new();
    r.extend_from_slice(&s[a..e]);
    assert(r@ =~= s@.subrange(a as int, e as int));
    r
}

/// True when `kw` occupies `s[pos..pos+kw.len())` and is followed by
/// whitespace or the end of the region.
pub open spec fn spec_match_kw(s: Seq<u8>, pos: int, le: int, kw: Seq<u8>) -> bool {
    pos + kw.len() <= le && s.subrange(pos, pos + kw.len() as int) == kw && (pos + kw.len() == le
        || spec_is_white(s[pos + kw.len()]))
}

fn match_kw(s: &[u8], pos: usize, le: usize, kw: &Vec<u8>) -> (r: bool)
    requires
        pos <= le <= s@.len(),
    ensures
        r == spec_match_kw(s@, pos as int, le as int, kw@),
{
    if le - pos < kw.len() {
        return false;
    }
    let n = kw.len();
    let mut i: usize = 0;
    while i < n
        invariant
            i <= n == kw.len(),
            pos + n <= le <= s@.len(),
            forall|j: int| 0 <= j < i ==> s@[pos + j] == kw@[j],
        decreases n - i,
    {
        if s[pos + i] != kw[i] {
            assert(s@.subrange(pos as int, pos + n) != kw@);
            return false;
        }
        i = i + 1;
    }
    assert(s@.subrange(pos as int, pos + n) =~= kw@);
    if pos + n == le {
        true
    } else {
        is_white_char(s[pos + n])
    }
}

/// The text of a comment introduced by `;` at `q`: everything to the end
/// of the line, with one space after the semicolon skipped if present.
pub open spec fn spec_comment_text(s: Seq<u8>, q: int, le: int) -> Seq<u8> {
    if q + 1 < le && s[q + 1] == 32 {
        s.subrange(q + 2, le)
    } else {
        s.subrange(q + 1, le)
    }
}

/// Copies the text of a comment introduced by `;` at `q`.
fn copy_comment_text(s: &[u8], q: usize, le: usize) -> (r: Vec<u8>)
    requires
        q < le <= s@.len(),
    ensures
        r@ == spec_comment_text(s@, q as int, le as int),
{
    let a = if q + 1 < le && s[q + 1] == 32 {
        q + 2
    } else {
        q + 1
    };
    let mut r: Vec<u8> = Vec::new();
    r.extend_from_slice(&s[a..le]);
    assert(r@ =~= s@.subrange(a as int, le as int));
    r
}

/// A further comment line joined onto an existing optional comment with a
/// line break.
pub open spec fn spec_join(c: Option<Seq<u8>>, l: Seq<u8>) -> Seq<u8> {
    match c {
        Some(x) => x + seq![10u8] + l,
        None => l,
    }
}

/// The full quantity value is at least the integer part.
pub proof fn lemma_mval_mono_start(s: Seq<u8>, p1: int, ie: int, fe: int)
    requires
        ie < fe,
    ensures
        spec_mval(s, p1, ie, fe) >= spec_num(s, p1, ie),
{
    let k = (fe - ie - 1) as nat;
    crate::text::lemma_pow10_le(0, k);
    assert(spec_num(s, p1, ie) * pow10(k) >= spec_num(s, p1, ie)) by (nonlinear_arith)
        requires
            pow10(k) >= 1,
    ;
}

/// Optional lot price after an amount: `{unit}` or `{{total}}`, followed
/// by skipped whitespace.
pub open spec fn spec_parse_lot(s: Seq<u8>, p: int, le: int) -> Result<(Option<PriceV>, int), PErr> {
    if p < le && s[p] == 123 {
        if p + 1 < le && s[p + 1] == 123 {
            match spec_parse_amount(s, p + 2, le) {
                Ok((a, p3)) => if p3 + 1 < le && s[p3] == 125 && s[p3 + 1] == 125 {
                    Ok((Some(PriceV::Total(a)), spec_skip_ws(s, p3 + 2, le)))
                } else {
                    Err(PErr { kind: CustomError::SyntaxError, pos: p })
                },
                Err(e) => Err(e),
            }
        } else {
            match spec_parse_amount(s, p + 1, le) {
                Ok((a, p3)) => if p3 < le && s[p3] == 125 {
                    Ok((Some(PriceV::Unit(a)), spec_skip_ws(s, p3 + 1, le)))
                } else {
                    Err(PErr { kind: CustomError::SyntaxError, pos: p })
                },
                Err(e) => Err(e),
            }
        }
    } else {
        Ok((None, p))
    }
}

/// Optional posted price: `@ unit` or `@@ total`, followed by skipped
/// whitespace.
pub open spec fn spec_parse_price(s: Seq<u8>, p: int, le: int) -> Result<
    (Option<PriceV>, int),
    PErr,
> {
    if p < le && s[p] == 64 {
        if p + 1 < le && s[p + 1] == 64 {
            match spec_parse_amount(s, p + 2, le) {
                Ok((a, p2)) => Ok((Some(PriceV::Total(a)), spec_skip_ws(s, p2, le))),
                Err(e) => Err(e),
            }
        } else {
            match spec_parse_amount(s, p + 1, le) {
                Ok((a, p2)) => Ok((Some(PriceV::Unit(a)), spec_skip_ws(s, p2, le))),
                Err(e) => Err(e),
            }
        }
    } else {
        Ok((None, p))
    }
}

/// Optional posting amount: present unless the line continues with a
/// balance assertion, a comment, or nothing.
pub open spec fn spec_parse_opt_amount(s: Seq<u8>, p: int, le: int) -> Result<
    (Option<PostingAmountV>, int),
    PErr,
> {
    if p < le && s[p] != 59 && s[p] != 61 {
        match spec_parse_amount(s, p, le) {
            Ok((a, p2)) => {
                let pw = spec_skip_ws(s, p2, le);
                match spec_parse_lot(s, pw, le) {
                    Ok((lot, p3)) => match spec_parse_price(s, p3, le) {
                        Ok((pr, p4)) => Ok(
                            (Some(PostingAmountV { amount: a, lot_price: lot, price: pr }), p4),
                        ),
                        Err(e) => Err(e),
                    },
                    Err(e) => Err(e),
                }
            },
            Err(e) => Err(e),
        }
    } else {
        Ok((None, p))
    }
}

/// Optional balance assertion: `=` then an amount or the literal zero.
pub open spec fn spec_parse_balance(s: Seq<u8>, p: int, le: int) -> Result<
    (Option<BalanceV>, int),
    PErr,
> {
    if p < le && s[p] == 61 {
        let pb = spec_skip_ws(s, p + 1, le);
        match spec_parse_amount(s, pb, le) {
            Ok((a, p2)) => Ok((Some(BalanceV::Amount(a)), spec_skip_ws(s, p2, le))),
            Err(e) => if pb < le && s[pb] == 48 {
                Ok((Some(BalanceV::Zero), spec_skip_ws(s, pb + 1, le)))
            } else {
                Err(e)
            },
        }
    } else {
        Ok((None, p))
    }
}

/// One posting line: indentation, optional status, the (possibly
/// bracketed) account, optional amount, optional balance assertion,
/// optional inline comment. Consumes up to (not including) the line feed.
pub open spec fn spec_parse_posting(s: Seq<u8>, pos: int, end: int) -> Result<
    (PostingV, int),
    PErr,
> {
    let le = spec_eol(s, pos, end);
    let p0 = spec_skip_ws(s, pos, le);
    let status: Option<TransactionStatus> = if p0 < le && s[p0] == 33 {
        Some(TransactionStatus::Pending)
    } else if p0 < le && s[p0] == 42 {
        Some(TransactionStatus::Cleared)
    } else {
        None
    };
    let p = if status is Some {
        spec_skip_ws(s, p0 + 1, le)
    } else {
        p0
    };
    if p >= le {
        Err(PErr { kind: CustomError::SyntaxError, pos })
    } else {
        let bracket = if s[p] == 91 {
            Some((Reality::BalancedVirtual, 93u8))
        } else if s[p] == 40 {
            Some((Reality::UnbalancedVirtual, 41u8))
        } else {
            None
        };
        let acct_res: Result<(Seq<u8>, Reality, int), PErr> = match bracket {
            Some((re, close)) => {
                let ce = spec_find(s, p + 1, le, close);
                if ce < le {
                    Ok((s.subrange(p + 1, ce), re, spec_skip_ws(s, ce + 1, le)))
                } else {
                    Err(PErr { kind: CustomError::SyntaxError, pos })
                }
            },
            None => {
                let ae = spec_account_end(s, p, le);
                if ae == p {
                    Err(PErr { kind: CustomError::SyntaxError, pos })
                } else {
                    Ok((s.subrange(p, ae), Reality::Real, spec_skip_ws(s, ae, le)))
                }
            },
        };
        match acct_res {
            Err(e) => Err(e),
            Ok((account, reality, p1)) => match spec_parse_opt_amount(s, p1, le) {
                Err(e) => Err(e),
                Ok((amt, p2)) => match spec_parse_balance(s, p2, le) {
                    Err(e) => Err(e),
                    Ok((bal, p3)) => {
                        let cm: Option<Seq<u8>> = if p3 < le && s[p3] == 59 {
                            Some(spec_comment_text(s, p3, le))
                        } else {
                            None
                        };
                        let p4 = if cm is Some {
                            le
                        } else {
                            p3
                        };
                        if p4 != le {
                            Err(PErr { kind: CustomError::SyntaxError, pos })
                        } else {
                            Ok(
                                (
                                    PostingV {
                                        account,
                                        reality,
                                        amount: amt,
                                        balance: bal,
                                        status,
                                        comment: cm,
                                    },
                                    le,
                                ),
                            )
                        }
                    },
                },
            },
        }
    }
}

/// Parses the optional lot price.
fn parse_lot(s: &[u8], p: usize, le: usize) -> (r: Result<(Option<Price>, usize), ParseError>)
    requires
        p <= le <= s@.len(),
    ensures
        ({
            let sp = spec_parse_lot(s@, p as int, le as int);
            match r {
                Ok(t) => sp == Result::<(Option<PriceV>, int), PErr>::Ok(
                    (
                        match t.0 {
                            Some(pr) => Some(pr@),
                            None => None,
                        },
                        t.1 as int,
                    ),
                ) && t.1 <= le,
                Err(e) => sp == Result::<(Option<PriceV>, int), PErr>::Err(e@),
            }
        }),
{
    if p < le && s[p] == 123 {
        if p + 1 < le && s[p + 1] == 123 {
            match parse_amount_at(s, p + 2, le) {
                Ok((a, p3)) => {
                    if p3 < le && p3 + 1 < le && s[p3] == 125 && s[p3 + 1] == 125 {
                        Ok((Some(Price::Total(a)), skip_ws(s, p3 + 2, le)))
                    } else {
                        Err(ParseError { kind: CustomError::SyntaxError, pos: p })
                    }
                },
                Err(e) => Err(e),
            }
        } else {
            match parse_amount_at(s, p + 1, le) {
                Ok((a, p3)) => {
                    if p3 < le && s[p3] == 125 {
                        Ok((Some(Price::Unit(a)), skip_ws(s, p3 + 1, le)))
                    } else {
                        Err(ParseError { kind: CustomError::SyntaxError, pos: p })
                    }
                },
                Err(e) => Err(e),
            }
        }
    } else {
        Ok((None, p))
    }
}

/// Parses the optional posted price.
fn parse_price(s: &[u8], p: usize, le: usize) -> (r: Result<(Option<Price>, usize), ParseError>)
    requires
        p <= le <= s@.len(),
    ensures
        ({
            let sp = spec_parse_price(s@, p as int, le as int);
            match r {
                Ok(t) => sp == Result::<(Option<PriceV>, int), PErr>::Ok(
                    (
                        match t.0 {
                            Some(pr) => Some(pr@),
                            None => None,
                        },
                        t.1 as int,
                    ),
                ) && t.1 <= le,
                Err(e) => sp == Result::<(Option<PriceV>, int), PErr>::Err(e@),
            }
        }),
{
    if p < le && s[p] == 64 {
        if p + 1 < le && s[p + 1] == 64 {
            match parse_amount_at(s, p + 2, le) {
                Ok((a, p2)) => Ok((Some(Price::Total(a)), skip_ws(s, p2, le))),
                Err(e) => Err(e),
            }
        } else {
            match parse_amount_at(s, p + 1, le) {
                Ok((a, p2)) => Ok((Some(Price::Unit(a)), skip_ws(s, p2, le))),
                Err(e) => Err(e),
            }
        }
    } else {
        Ok((None, p))
    }
}

/// Parses the optional posting amount with its prices.
fn parse_opt_amount(s: &[u8], p: usize, le: usize) -> (r: Result<
    (Option<PostingAmount>, usize),
    ParseError,
>)
    requires
        p <= le <= s@.len(),
    ensures
        ({
            let sp = spec_parse_opt_amount(s@, p as int, le as int);
            match r {
                Ok(t) => sp == Result::<(Option<PostingAmountV>, int), PErr>::Ok(
                    (
                        match t.0 {
                            Some(pa) => Some(pa@),
                            None => None,
                        },
                        t.1 as int,
                    ),
                ) && t.1 <= le,
                Err(e) => sp == Result::<(Option<PostingAmountV>, int), PErr>::Err(e@),
            }
        }),
{
    if p < le && s[p] != 59 && s[p] != 61 {
        match parse_amount_at(s, p, le) {
            Ok((a, p2)) => {
                let pw = skip_ws(s, p2, le);
                match parse_lot(s, pw, le) {
                    Ok((lot, p3)) => match parse_price(s, p3, le) {
                        Ok((pr, p4)) => Ok(
                            (Some(PostingAmount { amount: a, lot_price: lot, price: pr }), p4),
                        ),
                        Err(e) => Err(e),
                    },
                    Err(e) => Err(e),
                }
            },
            Err(e) => Err(e),
        }
    } else {
        Ok((None, p))
    }
}

/// Parses the optional balance assertion.
fn parse_balance(s: &[u8], p: usize, le: usize) -> (r: Result<
    (Option<Balance>, usize),
    ParseError,
>)
    requires
        p <= le <= s@.len(),
    ensures
        ({
            let sp = spec_parse_balance(s@, p as int, le as int);
            match r {
                Ok(t) => sp == Result::<(Option<BalanceV>, int), PErr>::Ok(
                    (
                        match t.0 {
                            Some(b) => Some(b@),
                            None => None,
                        },
                        t.1 as int,
                    ),
                ) && t.1 <= le,
                Err(e) => sp == Result::<(Option<BalanceV>, int), PErr>::Err(e@),
            }
        }),
{
    if p < le && s[p] == 61 {
        let pb = skip_ws(s, p + 1, le);
        match parse_amount_at(s, pb, le) {
            Ok((a, p2)) => Ok((Some(Balance::Amount(a)), skip_ws(s, p2, le))),
            Err(e) => {
                if pb < le && s[pb] == 48 {
                    Ok((Some(Balance::Zero), skip_ws(s, pb + 1, le)))
                } else {
                    Err(e)
                }
            },
        }
    } else {
        Ok((None, p))
    }
}

/// Parses one posting line.
#[verifier::rlimit(100)]
fn parse_posting(s: &[u8], pos: usize, end: usize) -> (r: Result<(Posting, usize), ParseError>)
    requires
        pos <= end <= s@.len(),
    ensures
        ({
            let sp = spec_parse_posting(s@, pos as int, end as int);
            match r {
                Ok(t) => sp == Result::<(PostingV, int), PErr>::Ok((t.0@, t.1 as int)) && pos
                    <= t.1 <= end,
                Err(e) => sp == Result::<(PostingV, int), PErr>::Err(e@),
            }
        }),
{
    let le = eol(s, pos, end);
    let p0 = skip_ws(s, pos, le);
    let status: Option<TransactionStatus> = if p0 < le && s[p0] == 33 {
        Some(TransactionStatus::Pending)
    } else if p0 < le && s[p0] == 42 {
        Some(TransactionStatus::Cleared)
    } else {
        None
    };
    let p = if status.is_some() {
        skip_ws(s, p0 + 1, le)
    } else {
        p0
    };
    if p >= le {
        return Err(ParseError { kind: CustomError::SyntaxError, pos });
    }
    let mut account: Vec<u8> = Vec::new();
    let reality: Reality;
    let p1: usize;
    if s[p] == 91 || s[p] == 40 {
        let close: u8 = if s[p] == 91 {
            93
        } else {
            41
        };
        reality = if s[p] == 91 {
            Reality::BalancedVirtual
        } else {
            Reality::UnbalancedVirtual
        };
        let ce = find_byte(s, p + 1, le, close);
        if ce >= le {
            return Err(ParseError { kind: CustomError::SyntaxError, pos });
        }
        account.extend_from_slice(&s[p + 1..ce]);
        assert(account@ =~= s@.subrange(p + 1, ce as int));
        p1 = skip_ws(s, ce + 1, le);
    } else {
        let ae = account_end(s, p, le);
        if ae == p {
            return Err(ParseError { kind: CustomError::SyntaxError, pos });
        }
        reality = Reality::Real;
        account.extend_from_slice(&s[p..ae]);
        assert(account@ =~= s@.subrange(p as int, ae as int));
        p1 = skip_ws(s, ae, le);
    }
    match parse_opt_amount(s, p1, le) {
        Err(e) => Err(e),
        Ok((amt, p2)) => match parse_balance(s, p2, le) {
            Err(e) => Err(e),
            Ok((bal, p3)) => {
                let cm: Option<Vec<u8>> = if p3 < le && s[p3] == 59 {
                    Some(copy_comment_text(s, p3, le))
                } else {
                    None
                };
                let p4 = if cm.is_some() {
                    le
                } else {
                    p3
                };
                if p4 != le {
                    return Err(ParseError { kind: CustomError::SyntaxError, pos });
                }
                let posting = Posting { account, reality, amount: amt, balance: bal, status,
                    comment: cm };
                Ok((posting, le))
            },
        },
    }
}

/// The position of the next line: past the line feed at `le`, and always
/// strictly past `pos`.
pub open spec fn spec_advance(pos: int, le: int, end: int) -> int {
    let n = if le < end {
        le + 1
    } else {
        end
    };
    if n > pos {
        n
    } else {
        pos + 1
    }
}

fn advance(pos: usize, le: usize, end: usize) -> (r: usize)
    requires
        pos < end,
        le <= end,
    ensures
        r == spec_advance(pos as int, le as int, end as int),
        pos < r <= end,
{
    let n = if le < end {
        le + 1
    } else {
        end
    };
    if n > pos {
        n
    } else {
        pos + 1
    }
}

/// The indented block after a transaction or periodic-transaction header:
/// comment lines (attached to the transaction before the first posting,
/// and to the last posting after it) and posting lines, ending at the
/// first non-indented line. At least one posting is required.
pub open spec fn spec_parse_block(
    s: Seq<u8>,
    pos: int,
    end: int,
    c: Option<Seq<u8>>,
    acc: Seq<PostingV>,
) -> Result<(Option<Seq<u8>>, Seq<PostingV>, int), PErr>
    decreases end - pos,
{
    if pos >= end || !(s[pos] == 32 || s[pos] == 9) {
        if acc.len() == 0 {
            Err(PErr { kind: CustomError::SyntaxError, pos })
        } else {
            Ok((c, acc, pos))
        }
    } else {
        let le = spec_eol(s, pos, end);
        let q = spec_skip_ws(s, pos, le);
        if q == le {
            if acc.len() == 0 {
                Err(PErr { kind: CustomError::SyntaxError, pos })
            } else {
                Ok((c, acc, pos))
            }
        } else if s[q] == 59 {
            let txt = spec_comment_text(s, q, le);
            let np = spec_advance(pos, le, end);
            if acc.len() == 0 {
                spec_parse_block(s, np, end, Some(spec_join(c, txt)), acc)
            } else {
                let lastp = acc.last();
                let p2 = PostingV { comment: Some(spec_join(lastp.comment, txt)), ..lastp };
                spec_parse_block(s, np, end, c, acc.update(acc.len() - 1, p2))
            }
        } else {
            match spec_parse_posting(s, pos, end) {
                Err(e) => Err(e),
                Ok((pv, le2)) => spec_parse_block(
                    s,
                    spec_advance(pos, le2, end),
                    end,
                    c,
                    acc.push(pv),
                ),
            }
        }
    }
}

/// The ghost value of an optional comment buffer.
pub open spec fn opt_view(c: Option<Vec<u8>>) -> Option<Seq<u8>> {
    match c {
        Some(v) => Some(v@),
        None => None,
    }
}

/// Joins a further comment line onto an optional comment buffer.
fn join_comment(c: Option<Vec<u8>>, txt: Vec<u8>) -> (r: Vec<u8>)
    ensures
        r@ == spec_join(opt_view(c), txt@),
{
    let ghost cv = opt_view(c);
    match c {
        Some(mut x) => {
            x.push(10u8);
            x.extend_from_slice(txt.as_slice());
            assert(x@ =~= spec_join(cv, txt@));
            x
        },
        None => txt,
    }
}

/// Parses the indented block after a header line.
#[verifier::rlimit(100)]
fn parse_block(s: &[u8], pos: usize, end: usize, c0: Option<Vec<u8>>) -> (r: Result<
    (Option<Vec<u8>>, Vec<Posting>, usize),
    ParseError,
>)
    requires
        pos <= end <= s@.len(),
    ensures
        ({
            let sp = spec_parse_block(s@, pos as int, end as int, opt_view(c0), Seq::empty());
            match r {
                Ok(t) => sp == Result::<(Option<Seq<u8>>, Seq<PostingV>, int), PErr>::Ok(
                    (opt_view(t.0), t.1@.map_values(|x: Posting| x@), t.2 as int),
                ) && pos <= t.2 <= end,
                Err(e) => sp == Result::<(Option<Seq<u8>>, Seq<PostingV>, int), PErr>::Err(e@),
            }
        }),
{
    let ghost c0v = opt_view(c0);
    let mut comment = c0;
    let mut postings: Vec<Posting> = Vec::new();
    let mut p = pos;
    assert(postings@.map_values(|x: Posting| x@) =~= Seq::<PostingV>::empty());
    loop
        invariant
            pos <= p <= end <= s@.len(),
            c0v == opt_view(c0),
            spec_parse_block(s@, pos as int, end as int, c0v, Seq::empty())
                == spec_parse_block(
                s@,
                p as int,
                end as int,
                opt_view(comment),
                postings@.map_values(|x: Posting| x@),
            ),
        decreases end - p,
    {
        if !(p < end && (s[p] == 32 || s[p] == 9)) {
            if postings.len() == 0 {
                return Err(ParseError { kind: CustomError::SyntaxError, pos: p });
            } else {
                return Ok((comment, postings, p));
            }
        }
        let le = eol(s, p, end);
        let q = skip_ws(s, p, le);
        if q == le {
            if postings.len() == 0 {
                return Err(ParseError { kind: CustomError::SyntaxError, pos: p });
            } else {
                return Ok((comment, postings, p));
            }
        }
        if s[q] == 59 {
            let txt = copy_comment_text(s, q, le);
            let np = advance(p, le, end);
            if postings.len() == 0 {
                let newc = join_comment(comment, txt);
                comment = Some(newc);
            } else {
                let ghost oldmap = postings@.map_values(|x: Posting| x@);
                let mut lastp = match postings.pop() {
                    Some(x) => x,
                    None => {
                        return Err(ParseError { kind: CustomError::IncompleteInput, pos: p });
                    },
                };
                let newc = join_comment(lastp.comment, txt);
                lastp.comment = Some(newc);
                postings.push(lastp);
                proof {
                    let f = |x: Posting| x@;
                    assert(postings@.map_values(f) =~= oldmap.update(
                        oldmap.len() - 1,
                        postings@.last()@,
                    ));
                }
            }
            p = np;
        } else {
            match parse_posting(s, p, end) {
                Err(e) => {
                    return Err(e);
                },
                Ok((pv, le2)) => {
                    let ghost oldmap = postings@.map_values(|x: Posting| x@);
                    let np = advance(p, le2, end);
                    postings.push(pv);
                    proof {
                        let f = |x: Posting| x@;
                        assert(postings@.map_values(f) =~= oldmap.push(postings@.last()@));
                    }
                    p = np;
                },
            }
        }
    }
}

/// A transaction: header line (date, optional `=` effective date, status,
/// `(code)`, description, optional trailing comment), then its block.
pub open spec fn spec_parse_transaction(s: Seq<u8>, pos: int, end: int) -> Result<
    (TransactionV, int),
    PErr,
> {
    let le = spec_eol(s, pos, end);
    match spec_parse_date(s, pos, le) {
        Err(e) => Err(e),
        Ok((d1, p1)) => {
            let eff_res: Result<(Option<Date>, int), PErr> = if p1 < le && s[p1] == 61 {
                match spec_parse_date(s, p1 + 1, le) {
                    Ok((d2, p2)) => Ok((Some(d2), p2)),
                    Err(e) => Err(e),
                }
            } else {
                Ok((None, p1))
            };
            match eff_res {
                Err(e) => Err(e),
                Ok((eff, p2)) => {
                    let q = spec_skip_ws(s, p2, le);
                    let status: Option<TransactionStatus> = if q < le && s[q] == 33 {
                        Some(TransactionStatus::Pending)
                    } else if q < le && s[q] == 42 {
                        Some(TransactionStatus::Cleared)
                    } else {
                        None
                    };
                    let p3 = if status is Some {
                        spec_skip_ws(s, q + 1, le)
                    } else {
                        q
                    };
                    let code_res: Result<(Option<Seq<u8>>, int), PErr> = if p3 < le && s[p3]
                        == 40 {
                        let ce = spec_find(s, p3 + 1, le, 41);
                        if ce < le {
                            Ok((Some(s.subrange(p3 + 1, ce)), spec_skip_ws(s, ce + 1, le)))
                        } else {
                            Err(PErr { kind: CustomError::SyntaxError, pos })
                        }
                    } else {
                        Ok((None, p3))
                    };
                    match code_res {
                        Err(e) => Err(e),
                        Ok((code, p4)) => {
                            let si = spec_find(s, p4, le, 59);
                            let desc = spec_trim(s.subrange(p4, si));
                            let hc: Option<Seq<u8>> = if si < le {
                                Some(spec_comment_text(s, si, le))
                            } else {
                                None
                            };
                            let np = spec_advance(pos, le, end);
                            match spec_parse_block(s, np, end, hc, Seq::empty()) {
                                Err(e) => Err(e),
                                Ok((cm, ps, p5)) => Ok(
                                    (
                                        TransactionV {
                                            comment: cm,
                                            date: d1,
                                            effective_date: eff,
                                            status,
                                            code,
                                            description: desc,
                                            postings: ps,
                                        },
                                        p5,
                                    ),
                                ),
                            }
                        },
                    }
                },
            }
        },
    }
}

/// Parses a transaction starting at `pos`.
#[verifier::rlimit(100)]
fn parse_transaction(s: &[u8], pos: usize, end: usize) -> (r: Result<
    (crate::model::Transaction, usize),
    ParseError,
>)
    requires
        pos <= end <= s@.len(),
    ensures
        ({
            let sp = spec_parse_transaction(s@, pos as int, end as int);
            match r {
                Ok(t) => sp == Result::<(TransactionV, int), PErr>::Ok((t.0@, t.1 as int)) && pos
                    <= t.1 <= end,
                Err(e) => sp == Result::<(TransactionV, int), PErr>::Err(e@),
            }
        }),
{
    let le = eol(s, pos, end);
    let (d1, p1) = match parse_date_at(s, pos, le) {
        Err(e) => {
            return Err(e);
        },
        Ok(t) => t,
    };
    let (eff, p2): (Option<Date>, usize) = if p1 < le && s[p1] == 61 {
        match parse_date_at(s, p1 + 1, le) {
            Ok((d2, pp)) => (Some(d2), pp),
            Err(e) => {
                return Err(e);
            },
        }
    } else {
        (None, p1)
    };
    let q = skip_ws(s, p2, le);
    let status: Option<TransactionStatus> = if q < le && s[q] == 33 {
        Some(TransactionStatus::Pending)
    } else if q < le && s[q] == 42 {
        Some(TransactionStatus::Cleared)
    } else {
        None
    };
    let p3 = if status.is_some() {
        skip_ws(s, q + 1, le)
    } else {
        q
    };
    let (code, p4): (Option<Vec<u8>>, usize) = if p3 < le && s[p3] == 40 {
        let ce = find_byte(s, p3 + 1, le, 41);
        if ce < le {
            let mut cd: Vec<u8> = Vec::new();
            cd.extend_from_slice(&s[p3 + 1..ce]);
            assert(cd@ =~= s@.subrange(p3 + 1, ce as int));
            (Some(cd), skip_ws(s, ce + 1, le))
        } else {
            return Err(ParseError { kind: CustomError::SyntaxError, pos });
        }
    } else {
        (None, p3)
    };
    let si = find_byte(s, p4, le, 59);
    let desc = copy_trimmed(s, p4, si);
    let hc: Option<Vec<u8>> = if si < le {
        Some(copy_comment_text(s, si, le))
    } else {
        None
    };
    let np = advance(pos, le, end);
    match parse_block(s, np, end, hc) {
        Err(e) => Err(e),
        Ok((cm, ps, p5)) => {
            let t = crate::model::Transaction {
                comment: cm,
                date: d1,
                effective_date: eff,
                status,
                code,
                description: desc,
                postings: ps,
            };
            Ok((t, p5))
        },
    }
}

/// A period specification: an explicit date, one of the period keywords,
/// or `every N <unit>` with a positive count.
pub open spec fn spec_parse_period(s: Seq<u8>, pos: int, le: int) -> Result<(Period, int), PErr> {
    if pos < le && spec_is_digit(s[pos]) {
        match spec_parse_date(s, pos, le) {
            Ok((d, np)) => Ok((Period::Date(d), np)),
            Err(e) => Err(e),
        }
    } else if spec_match_kw(s, pos, le, kw_daily()) {
        Ok((Period::Daily, pos + 5))
    } else if spec_match_kw(s, pos, le, kw_weekly()) {
        Ok((Period::Weekly, pos + 6))
    } else if spec_match_kw(s, pos, le, kw_monthly()) {
        Ok((Period::Monthly, pos + 7))
    } else if spec_match_kw(s, pos, le, kw_yearly()) {
        Ok((Period::Yearly, pos + 6))
    } else if spec_match_kw(s, pos, le, kw_every()) {
        let p = spec_skip_ws(s, pos + 5, le);
        let de = spec_digits_end(s, p, le);
        if de == p {
            Err(PErr { kind: CustomError::SyntaxError, pos })
        } else {
            let n = spec_num(s, p, de);
            if 1 <= n <= 4294967295 {
                let p2 = spec_skip_ws(s, de, le);
                if spec_match_kw(s, p2, le, kw_days()) {
                    Ok((Period::EveryNDays(n as u32), p2 + 4))
                } else if spec_match_kw(s, p2, le, kw_weeks()) {
                    Ok((Period::EveryNWeeks(n as u32), p2 + 5))
                } else if spec_match_kw(s, p2, le, kw_months()) {
                    Ok((Period::EveryNMonths(n as u32), p2 + 6))
                } else if spec_match_kw(s, p2, le, kw_years()) {
                    Ok((Period::EveryNYears(n as u32), p2 + 5))
                } else {
                    Err(PErr { kind: CustomError::SyntaxError, pos })
                }
            } else {
                Err(PErr { kind: CustomError::SyntaxError, pos })
            }
        }
    } else {
        Err(PErr { kind: CustomError::SyntaxError, pos })
    }
}

/// Builds the byte buffer of a keyword for matching.
fn kw_vec_daily() -> (r: Vec<u8>)
    ensures
        r@ == kw_daily(),
{
    let r = vec![100u8, 97u8, 105u8, 108u8, 121u8];
    assert(r@ =~= kw_daily());
    r
}

fn kw_vec_weekly() -> (r: Vec<u8>)
    ensures
        r@ == kw_weekly(),
{
    let r = vec![119u8, 101u8, 101u8, 107u8, 108u8, 121u8];
    assert(r@ =~= kw_weekly());
    r
}

fn kw_vec_monthly() -> (r: Vec<u8>)
    ensures
        r@ == kw_monthly(),
{
    let r = vec![109u8, 111u8, 110u8, 116u8, 104u8, 108u8, 121u8];
    assert(r@ =~= kw_monthly());
    r
}

fn kw_vec_yearly() -> (r: Vec<u8>)
    ensures
        r@ == kw_yearly(),
{
    let r = vec![121u8, 101u8, 97u8, 114u8, 108u8, 121u8];
    assert(r@ =~= kw_yearly());
    r
}

fn kw_vec_every() -> (r: Vec<u8>)
    ensures
        r@ == kw_every(),
{
    let r = vec![101u8, 118u8, 101u8, 114u8, 121u8];
    assert(r@ =~= kw_every());
    r
}

fn kw_vec_days() -> (r: Vec<u8>)
    ensures
        r@ == kw_days(),
{
    let r = vec![100u8, 97u8, 121u8, 115u8];
    assert(r@ =~= kw_days());
    r
}

fn kw_vec_weeks() -> (r: Vec<u8>)
    ensures
        r@ == kw_weeks(),
{
    let r = vec![119u8, 101u8, 101u8, 107u8, 115u8];
    assert(r@ =~= kw_weeks());
    r
}

fn kw_vec_months() -> (r: Vec<u8>)
    ensures
        r@ == kw_months(),
{
    let r = vec![109u8, 111u8, 110u8, 116u8, 104u8, 115u8];
    assert(r@ =~= kw_months());
    r
}

fn kw_vec_years() -> (r: Vec<u8>)
    ensures
        r@ == kw_years(),
{
    let r = vec![121u8, 101u8, 97u8, 114u8, 115u8];
    assert(r@ =~= kw_years());
    r
}

fn kw_vec_from() -> (r: Vec<u8>)
    ensures
        r@ == kw_from(),
{
    let r = vec![102u8, 114u8, 111u8, 109u8];
    assert(r@ =~= kw_from());
    r
}

fn kw_vec_to() -> (r: Vec<u8>)
    ensures
        r@ == kw_to(),
{
    let r = vec![116u8, 111u8];
    assert(r@ =~= kw_to());
    r
}

fn kw_vec_directive() -> (r: Vec<u8>)
    ensures
        r@ == kw_directive(),
{
    let r = vec![105u8, 110u8, 99u8, 108u8, 117u8, 100u8, 101u8];
    assert(r@ =~= kw_directive());
    r
}

/// Parses a period specification.
#[verifier::rlimit(100)]
fn parse_period(s: &[u8], pos: usize, le: usize) -> (r: Result<(Period, usize), ParseError>)
    requires
        pos <= le <= s@.len(),
    ensures
        ({
            let sp = spec_parse_period(s@, pos as int, le as int);
            match r {
                Ok(t) => sp == Result::<(Period, int), PErr>::Ok((t.0, t.1 as int)) && t.1 <= le,
                Err(e) => sp == Result::<(Period, int), PErr>::Err(e@),
            }
        }),
{
    if pos < le && is_digit(s[pos]) {
        return match parse_date_at(s, pos, le) {
            Ok((d, np)) => Ok((Period::Date(d), np)),
            Err(e) => Err(e),
        };
    }
    if match_kw(s, pos, le, &kw_vec_daily()) {
        return Ok((Period::Daily, pos + 5));
    }
    if match_kw(s, pos, le, &kw_vec_weekly()) {
        return Ok((Period::Weekly, pos + 6));
    }
    if match_kw(s, pos, le, &kw_vec_monthly()) {
        return Ok((Period::Monthly, pos + 7));
    }
    if match_kw(s, pos, le, &kw_vec_yearly()) {
        return Ok((Period::Yearly, pos + 6));
    }
    if match_kw(s, pos, le, &kw_vec_every()) {
        let p = skip_ws(s, pos + 5, le);
        let de = digits_end(s, p, le);
        if de == p {
            return Err(ParseError { kind: CustomError::SyntaxError, pos });
        }
        let mut acc: u64 = 0;
        let mut j = p;
        while j < de
            invariant
                pos <= p <= j <= de <= le <= s@.len(),
                !(pos < le && spec_is_digit(s@[pos as int])),
                !spec_match_kw(s@, pos as int, le as int, kw_daily()),
                !spec_match_kw(s@, pos as int, le as int, kw_weekly()),
                !spec_match_kw(s@, pos as int, le as int, kw_monthly()),
                !spec_match_kw(s@, pos as int, le as int, kw_yearly()),
                spec_match_kw(s@, pos as int, le as int, kw_every()),
                p == spec_skip_ws(s@, pos + 5, le as int),
                de == spec_digits_end(s@, p as int, le as int),
                de > p,
                acc == spec_num(s@, p as int, j as int),
                acc <= 4294967295,
            decreases de - j,
        {
            proof {
                lemma_digits_end_in_range(s@, p as int, le as int, j as int);
            }
            let d = (s[j] - 48) as u64;
            proof {
                assert(spec_num(s@, p as int, j + 1) == acc * 10 + spec_digit_val(s@[j as int]));
            }
            if acc > 429496729 || (acc == 429496729 && d > 5) {
                proof {
                    lemma_num_mono(s@, p as int, j + 1, de as int);
                }
                return Err(ParseError { kind: CustomError::SyntaxError, pos });
            }
            acc = acc * 10 + d;
            j = j + 1;
        }
        if acc == 0 {
            return Err(ParseError { kind: CustomError::SyntaxError, pos });
        }
        let n = acc as u32;
        let p2 = skip_ws(s, de, le);
        if match_kw(s, p2, le, &kw_vec_days()) {
            return Ok((Period::EveryNDays(n), p2 + 4));
        }
        if match_kw(s, p2, le, &kw_vec_weeks()) {
            return Ok((Period::EveryNWeeks(n), p2 + 5));
        }
        if match_kw(s, p2, le, &kw_vec_months()) {
            return Ok((Period::EveryNMonths(n), p2 + 6));
        }
        if match_kw(s, p2, le, &kw_vec_years()) {
            return Ok((Period::EveryNYears(n), p2 + 5));
        }
        return Err(ParseError { kind: CustomError::SyntaxError, pos });
    }
    Err(ParseError { kind: CustomError::SyntaxError, pos })
}

/// A periodic transaction: `~`, a period, optional `from` and `to` date
/// bounds, optional trailing comment, then its block.
pub open spec fn spec_parse_periodic(s: Seq<u8>, pos: int, end: int) -> Result<
    (PeriodicTransactionV, int),
    PErr,
> {
    let le = spec_eol(s, pos, end);
    if !(pos < le && s[pos] == 126) {
        Err(PErr { kind: CustomError::SyntaxError, pos })
    } else {
        let p0 = spec_skip_ws(s, pos + 1, le);
        match spec_parse_period(s, p0, le) {
            Err(e) => Err(e),
            Ok((per, p1)) => {
                let q1 = spec_skip_ws(s, p1, le);
                let from_res: Result<(Option<Date>, int), PErr> = if spec_match_kw(
                    s,
                    q1,
                    le,
                    kw_from(),
                ) {
                    let pd = spec_skip_ws(s, q1 + 4, le);
                    match spec_parse_date(s, pd, le) {
                        Ok((d, np)) => Ok((Some(d), spec_skip_ws(s, np, le))),
                        Err(e) => Err(e),
                    }
                } else {
                    Ok((None, q1))
                };
                match from_res {
                    Err(e) => Err(e),
                    Ok((start, q2)) => {
                        let to_res: Result<(Option<Date>, int), PErr> = if spec_match_kw(
                            s,
                            q2,
                            le,
                            kw_to(),
                        ) {
                            let pd = spec_skip_ws(s, q2 + 2, le);
                            match spec_parse_date(s, pd, le) {
                                Ok((d, np)) => Ok((Some(d), spec_skip_ws(s, np, le))),
                                Err(e) => Err(e),
                            }
                        } else {
                            Ok((None, q2))
                        };
                        match to_res {
                            Err(e) => Err(e),
                            Ok((endd, q3)) => {
                                let hc: Option<Seq<u8>> = if q3 < le && s[q3] == 59 {
                                    Some(spec_comment_text(s, q3, le))
                                } else {
                                    None
                                };
                                let q4 = if hc is Some {
                                    le
                                } else {
                                    q3
                                };
                                if q4 != le {
                                    Err(PErr { kind: CustomError::SyntaxError, pos })
                                } else {
                                    let np = spec_advance(pos, le, end);
                                    match spec_parse_block(s, np, end, hc, Seq::empty()) {
                                        Err(e) => Err(e),
                                        Ok((cm, ps, p5)) => Ok(
                                            (
                                                PeriodicTransactionV {
                                                    period: per,
                                                    comment: cm,
                                                    start_date: start,
                                                    end_date: endd,
                                                    postings: ps,
                                                },
                                                p5,
                                            ),
                                        ),
                                    }
                                }
                            },
                        }
                    },
                }
            },
        }
    }
}

/// Parses a periodic transaction starting at `pos`.
#[verifier::rlimit(100)]
fn parse_periodic(s: &[u8], pos: usize, end: usize) -> (r: Result<
    (crate::model::PeriodicTransaction, usize),
    ParseError,
>)
    requires
        pos <= end <= s@.len(),
    ensures
        ({
            let sp = spec_parse_periodic(s@, pos as int, end as int);
            match r {
                Ok(t) => sp == Result::<(PeriodicTransactionV, int), PErr>::Ok(
                    (t.0@, t.1 as int),
                ) && pos <= t.1 <= end,
                Err(e) => sp == Result::<(PeriodicTransactionV, int), PErr>::Err(e@),
            }
        }),
{
    let le = eol(s, pos, end);
    if !(pos < le && s[pos] == 126) {
        return Err(ParseError { kind: CustomError::SyntaxError, pos });
    }
    let p0 = skip_ws(s, pos + 1, le);
    let (per, p1) = match parse_period(s, p0, le) {
        Err(e) => {
            return Err(e);
        },
        Ok(t) => t,
    };
    let q1 = skip_ws(s, p1, le);
    let (start, q2): (Option<Date>, usize) = if match_kw(s, q1, le, &kw_vec_from()) {
        let pd = skip_ws(s, q1 + 4, le);
        match parse_date_at(s, pd, le) {
            Ok((d, np)) => (Some(d), skip_ws(s, np, le)),
            Err(e) => {
                return Err(e);
            },
        }
    } else {
        (None, q1)
    };
    let (endd, q3): (Option<Date>, usize) = if match_kw(s, q2, le, &kw_vec_to()) {
        let pd = skip_ws(s, q2 + 2, le);
        match parse_date_at(s, pd, le) {
            Ok((d, np)) => (Some(d), skip_ws(s, np, le)),
            Err(e) => {
                return Err(e);
            },
        }
    } else {
        (None, q2)
    };
    let hc: Option<Vec<u8>> = if q3 < le && s[q3] == 59 {
        Some(copy_comment_text(s, q3, le))
    } else {
        None
    };
    let q4 = if hc.is_some() {
        le
    } else {
        q3
    };
    if q4 != le {
        return Err(ParseError { kind: CustomError::SyntaxError, pos });
    }
    let np = advance(pos, le, end);
    match parse_block(s, np, end, hc) {
        Err(e) => Err(e),
        Ok((cm, ps, p5)) => {
            let t = crate::model::PeriodicTransaction {
                period: per,
                comment: cm,
                start_date: start,
                end_date: endd,
                postings: ps,
            };
            Ok((t, p5))
        },
    }
}

/// The `HH:MM:SS` shape.
pub open spec fn spec_time_shape(s: Seq<u8>, p: int, le: int) -> bool {
    p + 8 <= le && spec_is_digit(s[p]) && spec_is_digit(s[p + 1]) && s[p + 2] == 58
        && spec_is_digit(s[p + 3]) && spec_is_digit(s[p + 4]) && s[p + 5] == 58 && spec_is_digit(
        s[p + 6],
    ) && spec_is_digit(s[p + 7])
}

/// A commodity-price line: `P`, a date, a time of day, a commodity name
/// and an amount. Consumes the whole line.
pub open spec fn spec_parse_cprice(s: Seq<u8>, pos: int, end: int) -> Result<
    (CommodityPriceV, int),
    PErr,
> {
    let le = spec_eol(s, pos, end);
    if !(pos < le && s[pos] == 80 && pos + 1 < le && spec_is_white(s[pos + 1])) {
        Err(PErr { kind: CustomError::SyntaxError, pos })
    } else {
        let p0 = spec_skip_ws(s, pos + 1, le);
        match spec_parse_date(s, p0, le) {
            Err(e) => Err(e),
            Ok((d, p1)) => {
                let p2 = spec_skip_ws(s, p1, le);
                if !spec_time_shape(s, p2, le) {
                    Err(PErr { kind: CustomError::SyntaxError, pos })
                } else {
                    let h = spec_num(s, p2, p2 + 2);
                    let mi = spec_num(s, p2 + 3, p2 + 5);
                    let sec = spec_num(s, p2 + 6, p2 + 8);
                    if !(h < 24 && mi < 60 && sec < 60) {
                        Err(PErr { kind: CustomError::SyntaxError, pos })
                    } else {
                        let p3 = spec_skip_ws(s, p2 + 8, le);
                        match spec_parse_commodity(s, p3, le) {
                            Err(e) => Err(e),
                            Ok((name, p4)) => match spec_parse_amount(s, p4, le) {
                                Err(e) => Err(e),
                                Ok((a, p5)) => {
                                    let p6 = spec_skip_ws(s, p5, le);
                                    if p6 != le {
                                        Err(PErr { kind: CustomError::SyntaxError, pos })
                                    } else {
                                        Ok(
                                            (
                                                CommodityPriceV {
                                                    datetime: DateTime {
                                                        date: d,
                                                        hour: h as u32,
                                                        minute: mi as u32,
                                                        second: sec as u32,
                                                    },
                                                    commodity_name: name,
                                                    amount: a,
                                                },
                                                spec_advance(pos, le, end),
                                            ),
                                        )
                                    }
                                },
                            },
                        }
                    }
                }
            },
        }
    }
}

/// Parses a commodity-price line starting at `pos`.
#[verifier::rlimit(100)]
fn parse_cprice(s: &[u8], pos: usize, end: usize) -> (r: Result<
    (crate::model::CommodityPrice, usize),
    ParseError,
>)
    requires
        pos <= end <= s@.len(),
    ensures
        ({
            let sp = spec_parse_cprice(s@, pos as int, end as int);
            match r {
                Ok(t) => sp == Result::<(CommodityPriceV, int), PErr>::Ok((t.0@, t.1 as int))
                    && pos < t.1 <= end,
                Err(e) => sp == Result::<(CommodityPriceV, int), PErr>::Err(e@),
            }
        }),
{
    let le = eol(s, pos, end);
    if !(pos < le && s[pos] == 80 && pos + 1 < le && is_white_char(s[pos + 1])) {
        return Err(ParseError { kind: CustomError::SyntaxError, pos });
    }
    let p0 = skip_ws(s, pos + 1, le);
    let (d, p1) = match parse_date_at(s, p0, le) {
        Err(e) => {
            return Err(e);
        },
        Ok(t) => t,
    };
    let p2 = skip_ws(s, p1, le);
    let shape = le - p2 >= 8 && is_digit(s[p2]) && is_digit(s[p2 + 1]) && s[p2 + 2] == 58
        && is_digit(s[p2 + 3]) && is_digit(s[p2 + 4]) && s[p2 + 5] == 58 && is_digit(s[p2 + 6])
        && is_digit(s[p2 + 7]);
    if !shape {
        return Err(ParseError { kind: CustomError::SyntaxError, pos });
    }
    let h: u32 = (s[p2] - 48) as u32 * 10 + (s[p2 + 1] - 48) as u32;
    let mi: u32 = (s[p2 + 3] - 48) as u32 * 10 + (s[p2 + 4] - 48) as u32;
    let sec: u32 = (s[p2 + 6] - 48) as u32 * 10 + (s[p2 + 7] - 48) as u32;
    proof {
        let p = p2 as int;
        assert(spec_num(s@, p, p) == 0);
        assert(spec_num(s@, p, p + 2) == spec_num(s@, p, p + 1) * 10 + spec_digit_val(
            s@[p + 1],
        ));
        assert(spec_num(s@, p + 3, p + 3) == 0);
        assert(spec_num(s@, p + 3, p + 5) == spec_num(s@, p + 3, p + 4) * 10 + spec_digit_val(
            s@[p + 4],
        ));
        assert(spec_num(s@, p + 6, p + 6) == 0);
        assert(spec_num(s@, p + 6, p + 8) == spec_num(s@, p + 6, p + 7) * 10 + spec_digit_val(
            s@[p + 7],
        ));
        assert(h == spec_num(s@, p, p + 2));
        assert(mi == spec_num(s@, p + 3, p + 5));
        assert(sec == spec_num(s@, p + 6, p + 8));
    }
    if !(h < 24 && mi < 60 && sec < 60) {
        return Err(ParseError { kind: CustomError::SyntaxError, pos });
    }
    let p3 = skip_ws(s, p2 + 8, le);
    let (name, p4) = match parse_commodity_at(s, p3, le) {
        Err(e) => {
            return Err(e);
        },
        Ok(t) => t,
    };
    let (a, p5) = match parse_amount_at(s, p4, le) {
        Err(e) => {
            return Err(e);
        },
        Ok(t) => t,
    };
    let p6 = skip_ws(s, p5, le);
    if p6 != le {
        return Err(ParseError { kind: CustomError::SyntaxError, pos });
    }
    let cp = crate::model::CommodityPrice {
        datetime: DateTime { date: d, hour: h, minute: mi, second: sec },
        commodity_name: name,
        amount: a,
    };
    Ok((cp, advance(pos, le, end)))
}

/// The top-level document: classifies each line or block by its leading
/// byte and accumulates the items in order; the first failing item aborts
/// the whole parse.
pub open spec fn spec_parse_items(s: Seq<u8>, pos: int, acc: Seq<LedgerItemV>) -> Result<
    Seq<LedgerItemV>,
    PErr,
>
    decreases s.len() - pos,
{
    let end = s.len() as int;
    if pos >= end {
        Ok(acc)
    } else {
        let le = spec_eol(s, pos, end);
        let q = spec_skip_ws(s, pos, le);
        if q == le {
            spec_parse_items(s, spec_advance(pos, le, end), acc.push(LedgerItemV::EmptyLine))
        } else if s[pos] == 59 {
            spec_parse_items(
                s,
                spec_advance(pos, le, end),
                acc.push(LedgerItemV::LineComment(s.subrange(pos + 1, le))),
            )
        } else if s[pos] == 80 {
            match spec_parse_cprice(s, pos, end) {
                Err(e) => Err(e),
                Ok((cp, np)) => if pos < np <= end {
                    spec_parse_items(s, np, acc.push(LedgerItemV::CommodityPrice(cp)))
                } else {
                    Err(PErr { kind: CustomError::IncompleteInput, pos })
                },
            }
        } else if s[pos] == 126 {
            match spec_parse_periodic(s, pos, end) {
                Err(e) => Err(e),
                Ok((t, np)) => if pos < np <= end {
                    spec_parse_items(s, np, acc.push(LedgerItemV::PeriodicTransaction(t)))
                } else {
                    Err(PErr { kind: CustomError::IncompleteInput, pos })
                },
            }
        } else if spec_is_digit(s[pos]) {
            match spec_parse_transaction(s, pos, end) {
                Err(e) => Err(e),
                Ok((t, np)) => if pos < np <= end {
                    spec_parse_items(s, np, acc.push(LedgerItemV::Transaction(t)))
                } else {
                    Err(PErr { kind: CustomError::IncompleteInput, pos })
                },
            }
        } else if pos + 8 <= le && s.subrange(pos, pos + 7) == kw_directive() && s[pos + 7]
            == 32 {
            spec_parse_items(
                s,
                spec_advance(pos, le, end),
                acc.push(LedgerItemV::Include(s.subrange(pos + 8, le))),
            )
        } else {
            Err(PErr { kind: CustomError::SyntaxError, pos })
        }
    }
}

/// The whole document.
pub open spec fn spec_parse_ledger(s: Seq<u8>) -> Result<LedgerV, PErr> {
    match spec_parse_items(s, 0, Seq::empty()) {
        Ok(items) => Ok(LedgerV { items }),
        Err(e) => Err(e),
    }
}

/// Parses a whole journal document. The input must be consumed to its end;
/// the first item whose grammar fails aborts the parse with that item's
/// error.
#[verifier::rlimit(100)]
pub fn parse_ledger(s: &[u8]) -> (r: Result<crate::model::Ledger, ParseError>)
    ensures
        ({
            let sp = spec_parse_ledger(s@);
            match r {
                Ok(l) => sp == Result::<LedgerV, PErr>::Ok(l@),
                Err(e) => sp == Result::<LedgerV, PErr>::Err(e@),
            }
        }),
{
    let end = s.len();
    let mut items: Vec<crate::model::LedgerItem> = Vec::new();
    let mut p: usize = 0;
    assert(items@.map_values(|x: crate::model::LedgerItem| x@) =~= Seq::<LedgerItemV>::empty());
    loop
        invariant
            p <= end == s@.len(),
            spec_parse_items(s@, 0, Seq::empty()) == spec_parse_items(
                s@,
                p as int,
                items@.map_values(|x: crate::model::LedgerItem| x@),
            ),
        decreases end - p,
    {
        let ghost oldmap = items@.map_values(|x: crate::model::LedgerItem| x@);
        if p >= end {
            return Ok(crate::model::Ledger { items });
        }
        let le = eol(s, p, end);
        let q = skip_ws(s, p, le);
        if q == le {
            let np = advance(p, le, end);
            items.push(crate::model::LedgerItem::EmptyLine);
            proof {
                let f = |x: crate::model::LedgerItem| x@;
                assert(items@.map_values(f) =~= oldmap.push(items@.last()@));
            }
            p = np;
        } else if s[p] == 59 {
            let mut text: Vec<u8> = Vec::new();
            text.extend_from_slice(&s[p + 1..le]);
            assert(text@ =~= s@.subrange(p + 1, le as int));
            let np = advance(p, le, end);
            items.push(crate::model::LedgerItem::LineComment(text));
            proof {
                let f = |x: crate::model::LedgerItem| x@;
                assert(items@.map_values(f) =~= oldmap.push(items@.last()@));
            }
            p = np;
        } else if s[p] == 80 {
            match parse_cprice(s, p, end) {
                Err(e) => {
                    return Err(e);
                },
                Ok((cp, np)) => {
                    items.push(crate::model::LedgerItem::CommodityPrice(cp));
                    proof {
                        let f = |x: crate::model::LedgerItem| x@;
                        assert(items@.map_values(f) =~= oldmap.push(items@.last()@));
                    }
                    p = np;
                },
            }
        } else if s[p] == 126 {
            match parse_periodic(s, p, end) {
                Err(e) => {
                    return Err(e);
                },
                Ok((t, np)) => {
                    if np <= p {
                        return Err(ParseError { kind: CustomError::IncompleteInput, pos: p });
                    }
                    items.push(crate::model::LedgerItem::PeriodicTransaction(t));
                    proof {
                        let f = |x: crate::model::LedgerItem| x@;
                        assert(items@.map_values(f) =~= oldmap.push(items@.last()@));
                    }
                    p = np;
                },
            }
        } else if is_digit(s[p]) {
            match parse_transaction(s, p, end) {
                Err(e) => {
                    return Err(e);
                },
                Ok((t, np)) => {
                    if np <= p {
                        return Err(ParseError { kind: CustomError::IncompleteInput, pos: p });
                    }
                    items.push(crate::model::LedgerItem::Transaction(t));
                    proof {
                        let f = |x: crate::model::LedgerItem| x@;
                        assert(items@.map_values(f) =~= oldmap.push(items@.last()@));
                    }
                    p = np;
                },
            }
        } else if le - p >= 8 && match_kw_exact(s, p, le) && s[p + 7] == 32 {
            let mut path: Vec<u8> = Vec::new();
            path.extend_from_slice(&s[p + 8..le]);
            assert(path@ =~= s@.subrange(p + 8, le as int));
            let np = advance(p, le, end);
            items.push(crate::model::LedgerItem::Include(path));
            proof {
                let f = |x: crate::model::LedgerItem| x@;
                assert(items@.map_values(f) =~= oldmap.push(items@.last()@));
            }
            p = np;
        } else {
            return Err(ParseError { kind: CustomError::SyntaxError, pos: p });
        }
    }
}

/// True when the seven bytes of the file-inclusion directive keyword stand
/// at `pos` (at least eight bytes before `le` are required by the caller).
fn match_kw_exact(s: &[u8], pos: usize, le: usize) -> (r: bool)
    requires
        pos <= le <= s@.len(),
        le - pos >= 8,
    ensures
        r == (s@.subrange(pos as int, pos + 7) == kw_directive()),
{
    let kw = kw_vec_directive();
    let mut i: usize = 0;
    while i < 7
        invariant
            i <= 7,
            pos + 8 <= le <= s@.len(),
            kw@ == kw_directive(),
            forall|j: int| 0 <= j < i ==> s@[pos + j] == kw@[j],
        decreases 7 - i,
    {
        if s[pos + i] != kw[i] {
            assert(s@.subrange(pos as int, pos + 7) != kw_directive());
            return false;
        }
        i = i + 1;
    }
    assert(s@.subrange(pos as int, pos + 7) =~= kw_directive());
    true
}

/// Parses a date token at the start of the input; returns the date and the
/// position after the token.
pub fn parse_date(s: &[u8]) -> (r: Result<(Date, usize), ParseError>)
    ensures
        ({
            let sp = spec_parse_date(s@, 0, s@.len() as int);
            match r {
                Ok(t) => sp == Result::<(Date, int), PErr>::Ok((t.0, t.1 as int)),
                Err(e) => sp == Result::<(Date, int), PErr>::Err(e@),
            }
        }),
{
    parse_date_at(s, 0, s.len())
}

/// Parses a quantity token at the start of the input.
pub fn parse_quantity(s: &[u8]) -> (r: Result<(Decimal, usize), ParseError>)
    ensures
        ({
            let sp = spec_parse_quantity(s@, 0, s@.len() as int);
            match r {
                Ok(t) => sp == Result::<(Decimal, int), PErr>::Ok((t.0, t.1 as int)) && t.0.wf(),
                Err(e) => sp == Result::<(Decimal, int), PErr>::Err(e@),
            }
        }),
{
    parse_quantity_at(s, 0, s.len())
}

/// Parses a commodity token at the start of the input.
pub fn parse_commodity(s: &[u8]) -> (r: Result<(Vec<u8>, usize), ParseError>)
    ensures
        ({
            let sp = spec_parse_commodity(s@, 0, s@.len() as int);
            match r {
                Ok(t) => sp == Result::<(Seq<u8>, int), PErr>::Ok((t.0@, t.1 as int)),
                Err(e) => sp == Result::<(Seq<u8>, int), PErr>::Err(e@),
            }
        }),
{
    parse_commodity_at(s, 0, s.len())
}

/// Parses an amount at the start of the input.
pub fn parse_amount(s: &[u8]) -> (r: Result<(Amount, usize), ParseError>)
    ensures
        ({
            let sp = spec_parse_amount(s@, 0, s@.len() as int);
            match r {
                Ok(t) => sp == Result::<(AmountV, int), PErr>::Ok((t.0@, t.1 as int)),
                Err(e) => sp == Result::<(AmountV, int), PErr>::Err(e@),
            }
        }),
{
    parse_amount_at(s, 0, s.len())
}

} // verus!
