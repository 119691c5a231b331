//! Byte-level text helpers shared by the serializer and the parser:
//! decimal digit sequences, zero-padding, and powers of ten.

use vstd::prelude::*;

verus! {

/// Decimal digit string of `n`, most significant digit first, no leading
/// zeros (just `"0"` for zero).
pub open spec fn spec_digits(n: nat) -> Seq<u8>
    decreases n,
{
    if n < 10 {
        seq![(48 + n) as u8]
    } else {
        spec_digits(n / 10).push((48 + n % 10) as u8)
    }
}

/// `k` zero digits.
pub open spec fn spec_zeros(k: nat) -> Seq<u8> {
    Seq::new(k, |i: int| 48u8)
}

/// Digit string of `n`, left-padded with zeros to at least `w` digits.
pub open spec fn spec_pad_digits(n: nat, w: nat) -> Seq<u8> {
    let d = spec_digits(n);
    if d.len() >= w {
        d
    } else {
        spec_zeros((w - d.len()) as nat) + d
    }
}

/// Two-digit zero-padded rendering of `n % 100`.
pub open spec fn spec_pad2(n: nat) -> Seq<u8> {
    seq![(48 + (n / 10) % 10) as u8, (48 + n % 10) as u8]
}

/// Four-digit zero-padded rendering of `n % 10000`.
pub open spec fn spec_pad4(n: nat) -> Seq<u8> {
    seq![
        (48 + (n / 1000) % 10) as u8,
        (48 + (n / 100) % 10) as u8,
        (48 + (n / 10) % 10) as u8,
        (48 + n % 10) as u8,
    ]
}

/// `10^k`.
pub open spec fn pow10(k: nat) -> nat
    decreases k,
{
    if k == 0 {
        1
    } else {
        10 * pow10((k - 1) as nat)
    }
}

pub proof fn lemma_pow10_le(a: nat, b: nat)
    requires
        a <= b,
    ensures
        pow10(a) <= pow10(b),
    decreases b,
{
    if a < b {
        lemma_pow10_le(a, (b - 1) as nat);
    }
}

/// The digit string of `n` locates `n` between two powers of ten.
pub proof fn lemma_digits_len(n: nat)
    ensures
        1 <= spec_digits(n).len(),
        n < pow10(spec_digits(n).len()),
        spec_digits(n).len() > 1 ==> pow10((spec_digits(n).len() - 1) as nat) <= n,
    decreases n,
{
    if n < 10 {
    } else {
        lemma_digits_len(n / 10);
        let m = n / 10;
        let l = spec_digits(m).len();
        assert(spec_digits(n).len() == l + 1);
        assert(n == 10 * m + n % 10);
        assert(10 * m <= 10 * (pow10(l) - 1)) by (nonlinear_arith)
            requires
                m < pow10(l),
        ;
        assert(pow10((l + 1) as nat) == 10 * pow10(l));
        if l == 1 {
            assert(pow10(1) == 10 * pow10(0));
            assert(pow10(1) <= 10 * m);
        } else {
            assert(pow10(l) == 10 * pow10((l - 1) as nat));
            assert(10 * pow10((l - 1) as nat) <= 10 * m) by (nonlinear_arith)
                requires
                    pow10((l - 1) as nat) <= m,
            ;
        }
    }
}

/// Concatenation of byte sequences is associative.
pub proof fn seq_assoc(a: Seq<u8>, b: Seq<u8>, c: Seq<u8>)
    ensures
        (a + b) + c == a + (b + c),
{
    assert((a + b) + c =~= a + (b + c));
}

/// Appends the digit string of `n`.
pub fn push_digits(out: &mut Vec<u8>, n: u64)
    ensures
        final(out)@ == old(out)@ + spec_digits(n as nat),
    decreases n,
{
    if n < 10 {
        out.push(48 + n as u8);
    } else {
        push_digits(out, n / 10);
        out.push(48 + (n % 10) as u8);
    }
    assert(out@ == old(out)@ + spec_digits(n as nat));
}

/// Appends `k` zero digits.
pub fn push_zeros(out: &mut Vec<u8>, k: usize)
    ensures
        final(out)@ == old(out)@ + spec_zeros(k as nat),
{
    let mut i: usize = 0;
    while i < k
        invariant
            i <= k,
            out@ == old(out)@ + spec_zeros(i as nat),
        decreases k - i,
    {
        out.push(48u8);
        i = i + 1;
        assert(spec_zeros(i as nat) =~= spec_zeros((i - 1) as nat).push(48u8));
    }
}

/// Appends the digit string of `n`, zero-padded to at least `w` digits.
pub fn push_pad_digits(out: &mut Vec<u8>, n: u64, w: usize)
    ensures
        final(out)@ == old(out)@ + spec_pad_digits(n as nat, w as nat),
    decreases n,
{
    if w <= 1 {
        push_digits(out, n);
        proof {
            lemma_digits_len(n as nat);
            assert(spec_pad_digits(n as nat, w as nat) == spec_digits(n as nat));
        }
    } else if n < 10 {
        push_zeros(out, w - 1);
        out.push(48 + n as u8);
        assert(out@ =~= old(out)@ + spec_pad_digits(n as nat, w as nat));
    } else {
        push_pad_digits(out, n / 10, w - 1);
        out.push(48 + (n % 10) as u8);
        proof {
            let m = n as nat / 10;
            let d = spec_digits(m);
            assert(spec_digits(n as nat).len() == d.len() + 1);
            if d.len() >= w - 1 {
                assert(out@ =~= old(out)@ + spec_pad_digits(n as nat, w as nat));
            } else {
                assert(spec_pad_digits(n as nat, w as nat) =~= spec_pad_digits(
                    m,
                    (w - 1) as nat,
                ).push((48 + n as nat % 10) as u8));
                assert(out@ =~= old(out)@ + spec_pad_digits(n as nat, w as nat));
            }
        }
    }
}

/// Appends the two-digit zero-padded rendering of `n % 100`.
pub fn push_pad2(out: &mut Vec<u8>, n: u32)
    ensures
        final(out)@ == old(out)@ + spec_pad2(n as nat),
{
    out.push(48 + ((n / 10) % 10) as u8);
    out.push(48 + (n % 10) as u8);
    assert(out@ =~= old(out)@ + spec_pad2(n as nat));
}

/// Appends the four-digit zero-padded rendering of `n % 10000`.
pub fn push_pad4(out: &mut Vec<u8>, n: u32)
    ensures
        final(out)@ == old(out)@ + spec_pad4(n as nat),
{
    out.push(48 + ((n / 1000) % 10) as u8);
    out.push(48 + ((n / 100) % 10) as u8);
    out.push(48 + ((n / 10) % 10) as u8);
    out.push(48 + (n % 10) as u8);
    assert(out@ =~= old(out)@ + spec_pad4(n as nat));
}

} // verus!
