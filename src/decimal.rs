use vstd::prelude::*;

verus! {

/// `10^k`.
pub open spec fn pow10(k: nat) -> nat
    decreases k,
{
    if k == 0 {
        1
    } else {
        10 * pow10((k - 1) as nat)
    }
}

/// The character of a decimal digit.
pub open spec fn digit_char(d: nat) -> char {
    seq!['0', '1', '2', '3', '4', '5', '6', '7', '8', '9'][d as int]
}

/// The decimal text of `n`: no sign, no leading zeros, `"0"` for zero.
pub open spec fn decimal(n: nat) -> Seq<char>
    decreases n,
{
    if n < 10 {
        seq![digit_char(n)]
    } else {
        decimal(n / 10).push(digit_char(n % 10))
    }
}

/// Relies on `ToString` for `u64`, that is its `Display`: the decimal digits of
/// the value, without sign or leading zeros.
#[verifier::external_body]
fn u64_to_text(n: u64) -> (r: String)
    ensures
        r@ == decimal(n as nat),
{
    n.to_string()
}

/// The decimal text of `n`.
pub fn decimal_text(n: u64) -> (r: String)
    ensures
        r@ == decimal(n as nat),
{
    u64_to_text(n)
}

pub proof fn lemma_pow10_positive(k: nat)
    ensures
        pow10(k) >= 1,
    decreases k,
{
    if k > 0 {
        lemma_pow10_positive((k - 1) as nat);
    }
}

pub proof fn lemma_pow10_monotone(a: nat, b: nat)
    requires
        a <= b,
    ensures
        pow10(a) <= pow10(b),
    decreases b,
{
    if a < b {
        lemma_pow10_monotone(a, (b - 1) as nat);
        lemma_pow10_positive((b - 1) as nat);
    }
}

/// `10^19` is the largest power of ten that fits in a `u64`.
pub proof fn lemma_pow10_19()
    ensures
        pow10(19) == 10_000_000_000_000_000_000nat,
        pow10(19) < u64::MAX,
{
    reveal_with_fuel(pow10, 20);
}

/// A number with `d` decimal digits, that is in `[10^(d-1), 10^d)`, has a
/// decimal text of exactly `d` characters, the first of which is not `'0'`.
pub proof fn lemma_decimal_width(n: nat, d: nat)
    requires
        d >= 1,
        pow10((d - 1) as nat) <= n < pow10(d),
    ensures
        decimal(n).len() == d,
        decimal(n)[0] != '0',
    decreases d,
{
    if d == 1 {
        assert(pow10(1) == 10) by {
            reveal_with_fuel(pow10, 2);
        }
        assert(n < 10);
        assert(n >= 1);
    } else {
        let dm = (d - 1) as nat;
        assert(pow10(d) == 10 * pow10(dm));
        assert(pow10(dm) == 10 * pow10((dm - 1) as nat));
        lemma_pow10_positive((dm - 1) as nat);
        assert(n >= 10);
        assert(pow10((dm - 1) as nat) <= n / 10 < pow10(dm)) by (nonlinear_arith)
            requires
                pow10(dm) == 10 * pow10((dm - 1) as nat),
                pow10(d) == 10 * pow10(dm),
                pow10(dm) <= n < pow10(d),
        ;
        lemma_decimal_width(n / 10, dm);
        assert(decimal(n) == decimal(n / 10).push(digit_char(n % 10)));
    }
}

} // verus!
