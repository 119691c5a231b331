//! Laws relating the parser and the serializer, proved once and for all
//! inputs: the date grammar accepts every valid date under every separator
//! choice and returns exactly that date, and parsing a rendered decimal
//! gives back exactly the decimal that was rendered (value and scale).

use vstd::prelude::*;
use crate::model::{Date, Decimal};
use crate::parse::{
    spec_digits_end, spec_is_date_sep, spec_is_digit, spec_parse_date, spec_parse_quantity,
    spec_digit_val, spec_mval, spec_num, spec_qty_p1, PErr,
};
use crate::render::{dec_abs, spec_dec_scale, spec_render_date, spec_render_decimal};
use crate::text::{pow10, spec_digits, spec_pad2, spec_pad4, spec_pad_digits, spec_zeros};

verus! {

/// Every byte of a four-digit padded number is a decimal digit, and the
/// number they write is the number itself.
proof fn lemma_pad4_reads_back(s: Seq<u8>, off: int, n: nat)
    requires
        n <= 9999,
        0 <= off,
        off + 4 <= s.len(),
        s.subrange(off, off + 4) == spec_pad4(n),
    ensures
        spec_is_digit(s[off]),
        spec_is_digit(s[off + 1]),
        spec_is_digit(s[off + 2]),
        spec_is_digit(s[off + 3]),
        spec_num(s, off, off + 4) == n,
{
    assert(s[off] == spec_pad4(n)[0]);
    assert(s[off + 1] == spec_pad4(n)[1]);
    assert(s[off + 2] == spec_pad4(n)[2]);
    assert(s[off + 3] == spec_pad4(n)[3]);
    assert(spec_num(s, off, off) == 0);
    assert(spec_num(s, off, off + 1) == spec_digit_val(s[off]));
    assert(spec_num(s, off, off + 2) == spec_num(s, off, off + 1) * 10 + spec_digit_val(
        s[off + 1],
    ));
    assert(spec_num(s, off, off + 3) == spec_num(s, off, off + 2) * 10 + spec_digit_val(
        s[off + 2],
    ));
    assert(spec_num(s, off, off + 4) == spec_num(s, off, off + 3) * 10 + spec_digit_val(
        s[off + 3],
    ));
    assert(n / 1000 % 10 == n / 1000);
    assert(n == 10 * (n / 10) + n % 10);
    assert(n / 10 == 10 * (n / 100) + n / 10 % 10);
    assert(n / 100 == 10 * (n / 1000) + n / 100 % 10);
}

/// Every byte of a two-digit padded number is a decimal digit, and the
/// number they write is the number itself.
proof fn lemma_pad2_reads_back(s: Seq<u8>, off: int, n: nat)
    requires
        n <= 99,
        0 <= off,
        off + 2 <= s.len(),
        s.subrange(off, off + 2) == spec_pad2(n),
    ensures
        spec_is_digit(s[off]),
        spec_is_digit(s[off + 1]),
        spec_num(s, off, off + 2) == n,
{
    assert(s[off] == spec_pad2(n)[0]);
    assert(s[off + 1] == spec_pad2(n)[1]);
    assert(spec_num(s, off, off) == 0);
    assert(spec_num(s, off, off + 1) == spec_digit_val(s[off]));
    assert(spec_num(s, off, off + 2) == spec_num(s, off, off + 1) * 10 + spec_digit_val(
        s[off + 1],
    ));
    assert(n / 10 % 10 == n / 10);
    assert(n == 10 * (n / 10) + n % 10);
}

/// For every valid date and every choice of the two separators (each one
/// of `-`, `/`, `.`, chosen independently), parsing the ten-character date
/// text succeeds, consumes exactly ten bytes, and returns that very date.
/// In particular `YYYY-MM-DD`, `YYYY/MM/DD` and `YYYY.MM.DD` all parse to
/// the same date.
pub proof fn lemma_parse_date_any_separators(d: Date, sep1: u8, sep2: u8)
    requires
        d.valid(),
        spec_is_date_sep(sep1),
        spec_is_date_sep(sep2),
    ensures
        ({
            let s = spec_pad4(d.year as nat) + seq![sep1] + spec_pad2(d.month as nat)
                + seq![sep2] + spec_pad2(d.day as nat);
            spec_parse_date(s, 0, s.len() as int) == Result::<(Date, int), PErr>::Ok((d, 10))
        }),
{
    let s = spec_pad4(d.year as nat) + seq![sep1] + spec_pad2(d.month as nat) + seq![sep2]
        + spec_pad2(d.day as nat);
    assert(s.len() == 10);
    assert(s.subrange(0, 4) =~= spec_pad4(d.year as nat));
    assert(s.subrange(5, 7) =~= spec_pad2(d.month as nat));
    assert(s.subrange(8, 10) =~= spec_pad2(d.day as nat));
    assert(s[4] == sep1);
    assert(s[7] == sep2);
    lemma_pad4_reads_back(s, 0, d.year as nat);
    lemma_pad2_reads_back(s, 5, d.month as nat);
    lemma_pad2_reads_back(s, 8, d.day as nat);
}

/// Rendering a date and parsing the text gives back the same date: the
/// date component of the document round trip.
pub proof fn lemma_date_round_trip(d: Date)
    requires
        d.valid(),
    ensures
        spec_parse_date(spec_render_date(d), 0, spec_render_date(d).len() as int)
            == Result::<(Date, int), PErr>::Ok((d, 10)),
{
    lemma_parse_date_any_separators(d, 45, 45);
    assert(spec_render_date(d) =~= spec_pad4(d.year as nat) + seq![45u8] + spec_pad2(
        d.month as nat,
    ) + seq![45u8] + spec_pad2(d.day as nat));
}

/// Every byte of a digit string is a decimal digit.
proof fn lemma_digits_bytes(n: nat)
    ensures
        forall|i: int| 0 <= i < spec_digits(n).len() ==> spec_is_digit(#[trigger] spec_digits(n)[i]),
    decreases n,
{
    if n < 10 {
        assert(spec_digits(n)[0] == (48 + n) as u8);
    } else {
        lemma_digits_bytes(n / 10);
        assert forall|i: int| 0 <= i < spec_digits(n).len() implies spec_is_digit(
            #[trigger] spec_digits(n)[i],
        ) by {
            if i < spec_digits(n).len() - 1 {
                assert(spec_digits(n)[i] == spec_digits(n / 10)[i]);
            } else {
                assert(spec_digits(n)[i] == (48 + n % 10) as u8);
            }
        }
    }
}

/// The number written by an embedded digit string is the number itself.
proof fn lemma_num_of_digits(s: Seq<u8>, a: int, b: int, n: nat)
    requires
        0 <= a <= b <= s.len(),
        s.subrange(a, b) == spec_digits(n),
    ensures
        spec_num(s, a, b) == n,
    decreases n,
{
    if n < 10 {
        assert(s.subrange(a, b).len() == b - a);
        assert(b - a == 1);
        assert(s[a] == s.subrange(a, b)[0]);
        assert(s[a] == (48 + n) as u8);
        assert(spec_digit_val(s[a]) == n);
        assert(spec_num(s, a, b) == spec_num(s, a, a) * 10 + spec_digit_val(s[a]));
    } else {
        assert(s.subrange(a, b).len() == b - a);
        assert(s[b - 1] == s.subrange(a, b).last());
        assert(s[b - 1] == spec_digits(n).last());
        assert(s[b - 1] == (48 + n % 10) as u8);
        assert(spec_digit_val(s[b - 1]) == n % 10);
        assert(s.subrange(a, b - 1) =~= spec_digits(n).drop_last());
        assert(spec_digits(n).drop_last() =~= spec_digits(n / 10));
        lemma_num_of_digits(s, a, b - 1, n / 10);
        assert(spec_num(s, a, b) == spec_num(s, a, b - 1) * 10 + spec_digit_val(s[b - 1]));
    }
}

/// A region of digits followed by a non-digit (or the end) is exactly the
/// digit run the scanner finds.
proof fn lemma_digits_end_exact(s: Seq<u8>, p: int, e: int, end: int)
    requires
        0 <= p <= e <= end <= s.len(),
        forall|i: int| p <= i < e ==> spec_is_digit(#[trigger] s[i]),
        e == end || !spec_is_digit(s[e]),
    ensures
        spec_digits_end(s, p, end) == e,
    decreases e - p,
{
    if p < e {
        lemma_digits_end_exact(s, p + 1, e, end);
    }
}

/// Splitting a digit run splits its value by a power of ten.
proof fn lemma_num_split(s: Seq<u8>, a: int, mid: int, b: int)
    requires
        0 <= a <= mid <= b <= s.len(),
    ensures
        spec_num(s, a, b) == spec_num(s, a, mid) * pow10((b - mid) as nat) + spec_num(s, mid, b),
    decreases b - mid,
{
    if mid == b {
        assert(pow10(0) == 1);
        assert(spec_num(s, a, b) * 1 == spec_num(s, a, b)) by (nonlinear_arith);
    } else {
        lemma_num_split(s, a, mid, b - 1);
        let x = spec_num(s, a, mid);
        let p = pow10((b - 1 - mid) as nat);
        assert(pow10((b - mid) as nat) == 10 * p);
        assert((x * p) * 10 == x * (10 * p)) by (nonlinear_arith);
    }
}

/// A run of zero digits writes the number zero.
proof fn lemma_num_zeros(s: Seq<u8>, a: int, b: int)
    requires
        0 <= a <= b <= s.len(),
        forall|i: int| a <= i < b ==> #[trigger] s[i] == 48,
    ensures
        spec_num(s, a, b) == 0,
    decreases b - a,
{
    if a < b {
        lemma_num_zeros(s, a, b - 1);
    }
}

/// The number written by an embedded zero-padded digit string is the
/// number itself, and all its bytes are digits.
proof fn lemma_num_of_pad(s: Seq<u8>, a: int, b: int, n: nat, w: nat)
    requires
        0 <= a <= b <= s.len(),
        s.subrange(a, b) == spec_pad_digits(n, w),
    ensures
        spec_num(s, a, b) == n,
        forall|i: int| a <= i < b ==> spec_is_digit(#[trigger] s[i]),
    decreases w,
{
    lemma_digits_bytes(n);
    let dsn = spec_digits(n);
    if dsn.len() >= w {
        assert(s.subrange(a, b) == dsn);
        lemma_num_of_digits(s, a, b, n);
        assert forall|i: int| a <= i < b implies spec_is_digit(#[trigger] s[i]) by {
            assert(s[i] == dsn[i - a]);
        }
    } else {
        let k = w - dsn.len();
        let mid = a + k;
        assert(spec_zeros(k as nat).len() == k);
        assert(spec_pad_digits(n, w) == spec_zeros(k as nat) + dsn);
        assert(spec_pad_digits(n, w).len() == w);
        assert(s.subrange(a, b).len() == b - a);
        assert(b - a == w);
        assert forall|i: int| a <= i < mid implies #[trigger] s[i] == 48 by {
            assert(s[i] == s.subrange(a, b)[i - a]);
            assert(spec_pad_digits(n, w)[i - a] == spec_zeros(k as nat)[i - a]);
        }
        assert forall|j: int| 0 <= j < b - mid implies s.subrange(mid, b)[j] == dsn[j] by {
            assert(s[mid + j] == s.subrange(a, b)[k + j]);
            assert(spec_pad_digits(n, w)[k + j] == dsn[j]);
        }
        assert(s.subrange(mid, b) =~= dsn);
        lemma_num_zeros(s, a, mid);
        lemma_num_of_digits(s, mid, b, n);
        lemma_num_split(s, a, mid, b);
        assert(0 * pow10((b - mid) as nat) == 0) by (nonlinear_arith);
        assert forall|i: int| a <= i < b implies spec_is_digit(#[trigger] s[i]) by {
            if i >= mid {
                assert(s[i] == dsn[i - mid]);
            }
        }
    }
}

/// Rendering a decimal and parsing the text gives back exactly the same
/// decimal — same mantissa and same scale — and consumes the whole text:
/// the quantity component of the document round trip. In particular a
/// trailing zero in the fraction (`0.10`) survives the round trip.
pub proof fn lemma_decimal_round_trip(d: Decimal)
    requires
        d.wf(),
    ensures
        ({
            let s = spec_render_decimal(d);
            spec_parse_quantity(s, 0, s.len() as int) == Result::<(Decimal, int), PErr>::Ok(
                (d, s.len() as int),
            )
        }),
{
    let s = spec_render_decimal(d);
    let len = s.len() as int;
    let a = dec_abs(d.mantissa);
    let neg = d.mantissa < 0;
    let sc = spec_dec_scale(d);
    assert(sc == d.scale);
    lemma_digits_bytes(a);
    if sc == 0 {
        let dsn = spec_digits(a);
        let off: int = if neg {
            1
        } else {
            0
        };
        assert(s.subrange(off, len) =~= dsn);
        assert(spec_is_digit(s[off]));
        let p1 = spec_qty_p1(s, 0, len);
        assert(p1 == off);
        assert forall|i: int| off <= i < len implies spec_is_digit(#[trigger] s[i]) by {
            assert(s[i] == dsn[i - off]);
        }
        lemma_digits_end_exact(s, off, len, len);
        lemma_num_of_digits(s, off, len, a);
    } else {
        let ds = spec_pad_digits(a, (sc + 1) as nat);
        let t = ds.len() as int;
        assert(t >= sc + 1);
        let off: int = if neg {
            1
        } else {
            0
        };
        let ie = off + t - sc;
        assert(s.subrange(off, ie) =~= ds.subrange(0, t - sc));
        assert(s[ie] == 46);
        assert(s.subrange(ie + 1, len) =~= ds.subrange(t - sc, t));
        assert(len == ie + 1 + sc);
        // the padded digit string embeds at its own indices
        assert(ds.subrange(0, t) =~= ds);
        lemma_num_of_pad(ds, 0, t, a, (sc + 1) as nat);
        lemma_num_split(ds, 0, t - sc, t);
        // both regions of the rendered text carry the split values
        lemma_num_congruent(s, off, ie, ds, 0, t - sc);
        lemma_num_congruent(s, ie + 1, len, ds, t - sc, t);
        assert forall|i: int| off <= i < ie implies spec_is_digit(#[trigger] s[i]) by {
            assert(s[i] == ds[i - off]);
        }
        assert forall|i: int| ie + 1 <= i < len implies spec_is_digit(#[trigger] s[i]) by {
            assert(s[i] == ds[i - ie - 1 + t - sc]);
        }
        let p1 = spec_qty_p1(s, 0, len);
        assert(p1 == off);
        lemma_digits_end_exact(s, off, ie, len);
        lemma_digits_end_exact(s, ie + 1, len, len);
        assert(spec_mval(s, p1, ie, len) == spec_num(s, p1, ie) * pow10(sc as nat) + spec_num(
            s,
            ie + 1,
            len,
        ));
        assert(spec_mval(s, p1, ie, len) == a);
    }
}

/// Two equal digit regions write the same number.
proof fn lemma_num_congruent(s1: Seq<u8>, a1: int, b1: int, s2: Seq<u8>, a2: int, b2: int)
    requires
        0 <= a1 <= b1 <= s1.len(),
        0 <= a2 <= b2 <= s2.len(),
        s1.subrange(a1, b1) == s2.subrange(a2, b2),
    ensures
        spec_num(s1, a1, b1) == spec_num(s2, a2, b2),
    decreases b1 - a1,
{
    assert(s1.subrange(a1, b1).len() == b1 - a1);
    assert(s2.subrange(a2, b2).len() == b2 - a2);
    assert(b2 - a2 == b1 - a1);
    if a1 < b1 {
        assert(s1[b1 - 1] == s1.subrange(a1, b1).last());
        assert(s2[b2 - 1] == s2.subrange(a2, b2).last());
        assert(s1[b1 - 1] == s2[b2 - 1]);
        assert forall|j: int| 0 <= j < b1 - 1 - a1 implies #[trigger] s1.subrange(a1, b1 - 1)[j]
            == s2.subrange(a2, b2 - 1)[j] by {
            assert(s1[a1 + j] == s1.subrange(a1, b1)[j]);
            assert(s2[a2 + j] == s2.subrange(a2, b2)[j]);
        }
        assert(s1.subrange(a1, b1 - 1) =~= s2.subrange(a2, b2 - 1));
        lemma_num_congruent(s1, a1, b1 - 1, s2, a2, b2 - 1);
    }
}

} // verus!
