//! Numbers in decimal notation: whole numbers, and fixed-point numbers with
//! eighteen places behind the point.

use vstd::prelude::*;

verus! {

/// The decimal point.
pub const POINT: u8 = 0x2e;

/// What is one in a fixed-point number: ten to the eighteenth.
pub const ONE: u128 = 1_000_000_000_000_000_000;

/// The character of a digit below ten.
pub open spec fn digit(d: nat) -> u8 {
    (48 + d) as u8
}

/// The digits of a whole number, the most significant first.
pub open spec fn decimal(n: nat) -> Seq<u8>
    decreases n,
{
    if n < 10 {
        seq![digit(n)]
    } else {
        decimal(n / 10).push(digit(n % 10))
    }
}

/// Ten to the power of `e`.
pub open spec fn pow10(e: nat) -> nat
    decreases e,
{
    if e == 0 {
        1
    } else {
        10 * pow10((e - 1) as nat)
    }
}

/// The digits of a fraction behind the point, where `scale` is the weight of
/// the first of them and `frac` is less than ten times `scale`. The zeros at
/// the end are left out.
pub open spec fn fraction(frac: nat, scale: nat) -> Seq<u8>
    decreases scale,
{
    if frac == 0 || scale == 0 {
        Seq::empty()
    } else {
        seq![digit(frac / scale)] + fraction(frac % scale, scale / 10)
    }
}

/// A fixed-point number in decimal notation: the whole part, and, unless the
/// fraction is zero, the point and the digits of the fraction.
pub open spec fn fixed_point(atomics: nat) -> Seq<u8> {
    if atomics % (ONE as nat) == 0 {
        decimal(atomics / (ONE as nat))
    } else {
        decimal(atomics / (ONE as nat)) + seq![POINT] + fraction(
            atomics % (ONE as nat),
            (ONE / 10) as nat,
        )
    }
}

/// Appends the digits of a whole number.
pub fn push_decimal(out: &mut Vec<u8>, n: u128)
    ensures
        final(out)@ == old(out)@ + decimal(n as nat),
{
    let mut low: Vec<u8> = Vec::new();
    let mut m: u128 = n;
    assert(decimal(m as nat) + low@.reverse() =~= decimal(n as nat));
    while m >= 10
        invariant
            decimal(n as nat) == decimal(m as nat) + low@.reverse(),
        decreases m,
    {
        let d: u8 = (m % 10) as u8;
        let ghost before = low@;
        low.push(48 + d);
        assert(low@.reverse() =~= seq![digit((m % 10) as nat)] + before.reverse());
        assert(decimal(m as nat) + before.reverse() =~= decimal((m / 10) as nat) + low@.reverse());
        m = m / 10;
    }
    let d: u8 = m as u8;
    out.push(48 + d);
    let mut k: usize = low.len();
    while k > 0
        invariant
            k <= low@.len(),
            out@ == old(out)@ + seq![digit(m as nat)] + low@.reverse().take(low@.len() - k),
        decreases k,
    {
        k = k - 1;
        out.push(low[k]);
        assert(out@ =~= old(out)@ + seq![digit(m as nat)] + low@.reverse().take(low@.len() - k));
    }
    assert(low@.reverse().take(low@.len() as int) =~= low@.reverse());
    assert(out@ =~= old(out)@ + decimal(n as nat));
}

/// Appends a fixed-point number in decimal notation.
pub fn push_fixed_point(out: &mut Vec<u8>, atomics: u128)
    ensures
        final(out)@ == old(out)@ + fixed_point(atomics as nat),
{
    push_decimal(out, atomics / ONE);
    let mut f: u128 = atomics % ONE;
    if f == 0 {
        return ;
    }
    out.push(POINT);
    let mut scale: u128 = ONE / 10;
    let ghost mut places: nat = 17;
    proof {
        reveal_with_fuel(pow10, 18);
        assert(pow10(17) == ONE / 10);
    }
    while f > 0
        invariant
            f > 0 ==> scale == pow10(places) && f < 10 * scale,
            old(out)@ + fixed_point(atomics as nat) == out@ + fraction(f as nat, scale as nat),
        decreases scale,
    {
        assert(scale > 0) by {
            lemma_pow10_positive(places);
        }
        assert(f / scale < 10) by (nonlinear_arith)
            requires
                f < 10 * scale,
                scale > 0,
        ;
        assert(f % scale < scale && f % scale <= f) by (nonlinear_arith)
            requires
                scale > 0,
        ;
        let d: u8 = (f / scale) as u8;
        let ghost before = out@;
        out.push(48 + d);
        assert(out@ + fraction((f % scale) as nat, (scale / 10) as nat) =~= before + fraction(
            f as nat,
            scale as nat,
        ));
        proof {
            if f % scale > 0 {
                assert(places > 0) by {
                    if places == 0 {
                        assert(pow10(0) == 1);
                    }
                }
                assert(pow10(places) == 10 * pow10((places - 1) as nat));
                places = (places - 1) as nat;
            }
        }
        f = f % scale;
        scale = scale / 10;
    }
    assert(out@ + fraction(0, scale as nat) =~= out@);
}

proof fn lemma_pow10_positive(e: nat)
    ensures
        pow10(e) > 0,
    decreases e,
{
    if e > 0 {
        lemma_pow10_positive((e - 1) as nat);
    }
}

} // verus!
