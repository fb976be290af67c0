//! The conversion itself: the name of a 0..=999 period, the decomposition of
//! a magnitude into base-1000 periods, and the assembly of the full name.

use vstd::prelude::*;
use vstd::string::StringExecFns;

use crate::words::ones_word;
use crate::words::scale_word;
use crate::words::tens_word;
use crate::words::ones_str;
use crate::words::scale_str;
use crate::words::tens_str;

verus! {

/// The English name of one base-1000 period value, n in [0, 999]; the empty
/// sequence for 0.  A value past nineteen that is no multiple of ten is
/// hyphenated; a value past ninety-nine starts with "<digit> hundred" and,
/// unless it is an exact hundred, carries the name of its remainder.
pub open spec fn spec_name_period(n: int) -> Seq<char>
    decreases n,
{
    if n <= 19 {
        ones_word(n)
    } else if n <= 99 {
        if n % 10 == 0 {
            tens_word(n / 10)
        } else {
            tens_word(n / 10) + "-"@ + ones_word(n % 10)
        }
    } else {
        if n % 100 == 0 {
            ones_word(n / 100) + " "@ + "hundred"@
        } else {
            ones_word(n / 100) + " "@ + "hundred"@ + " "@ + spec_name_period(n % 100)
        }
    }
}

/// One emitted period: its name, followed by its scale word when it is not
/// the ones period.
pub open spec fn spec_segment(n: int, i: int) -> Seq<char> {
    if i == 0 {
        spec_name_period(n)
    } else {
        spec_name_period(n) + " "@ + scale_word(i)
    }
}

/// The name of the magnitude m * 1000^i, for m >= 1: the nonzero periods of
/// m, most significant first, each with its scale word, joined by ", ".
/// Zero periods contribute nothing, not even a separator.
pub open spec fn spec_group_name(m: nat, i: nat) -> Seq<char>
    decreases m,
{
    if m <= 0 {
        Seq::<char>::empty()
    } else if m % 1000 == 0 {
        spec_group_name(m / 1000, i + 1)
    } else if m < 1000 {
        spec_segment(m as int, i as int)
    } else {
        spec_group_name(m / 1000, i + 1) + ", "@ + spec_segment((m % 1000) as int, i as int)
    }
}

/// The full name of the integer x: "zero" for 0, otherwise the name of the
/// magnitude, prefixed by "negative " when x is negative.
pub open spec fn spec_integer_name(x: int) -> Seq<char> {
    if x == 0 {
        "zero"@
    } else if x < 0 {
        "negative"@ + " "@ + spec_group_name((-x) as nat, 0)
    } else {
        spec_group_name(x as nat, 0)
    }
}

/// 1000 raised to i: the weight of the period at index i.
pub open spec fn pow1000(i: nat) -> nat
    decreases i,
{
    if i == 0 {
        1
    } else {
        1000 * pow1000((i - 1) as nat)
    }
}

pub proof fn lemma_pow1000_pos(i: nat)
    ensures
        pow1000(i) >= 1,
    decreases i,
{
    if i > 0 {
        lemma_pow1000_pos((i - 1) as nat);
    }
}

pub proof fn lemma_pow1000_increases(i: nat, j: nat)
    requires
        i <= j,
    ensures
        pow1000(i) <= pow1000(j),
    decreases j,
{
    if i < j {
        lemma_pow1000_increases(i, (j - 1) as nat);
        lemma_pow1000_pos((j - 1) as nat);
    }
}

/// Every 128-bit magnitude lies below 1000^13, so thirteen periods always
/// suffice and the scale table is never exceeded.
pub proof fn lemma_u128_fits_13_periods()
    ensures
        u128::MAX < pow1000(13),
{
    assert(pow1000(0) == 1);
    assert(pow1000(1) == 1000);
    assert(pow1000(2) == 1000000);
    assert(pow1000(3) == 1000000000);
    assert(pow1000(4) == 1000000000000);
    assert(pow1000(5) == 1000000000000000);
    assert(pow1000(6) == 1000000000000000000);
    assert(pow1000(7) == 1000000000000000000000);
    assert(pow1000(8) == 1000000000000000000000000);
    assert(pow1000(9) == 1000000000000000000000000000);
    assert(pow1000(10) == 1000000000000000000000000000000);
    assert(pow1000(11) == 1000000000000000000000000000000000);
    assert(pow1000(12) == 1000000000000000000000000000000000000);
    assert(pow1000(13) == 1000 * pow1000(12));
}

/// While m * 1000^i stays below 1000^13, the period index stays in the scale
/// table, and dividing a period out preserves the bound.
pub proof fn lemma_group_step(m: nat, i: nat)
    requires
        m >= 1,
        m * pow1000(i) < pow1000(13),
    ensures
        i <= 12,
        m >= 1000 ==> m / 1000 >= 1,
        m >= 1000 ==> (m / 1000) * pow1000(i + 1) < pow1000(13),
{
    lemma_pow1000_pos(i);
    if i >= 13 {
        lemma_pow1000_increases(13, i);
        assert(pow1000(i) <= m * pow1000(i)) by (nonlinear_arith)
            requires
                m >= 1,
                pow1000(i) >= 0,
        ;
    }
    if m >= 1000 {
        assert((m / 1000) * 1000 <= m) by (nonlinear_arith)
            requires
                m >= 1000,
        ;
        assert(pow1000(i + 1) == 1000 * pow1000(i));
        assert((m / 1000) * pow1000(i + 1) <= m * pow1000(i)) by (nonlinear_arith)
            requires
                (m / 1000) * 1000 <= m,
                pow1000(i + 1) == 1000 * pow1000(i),
                pow1000(i) >= 0,
        ;
    }
}

/// The English name of one period value, n in [0, 999]: the direct word up
/// to nineteen, the hyphenated tens form up to ninety-nine, and the
/// "<digit> hundred" forms beyond.
pub fn tiny_integer_name(n: u16) -> (r: String)
    requires
        n <= 999,
    ensures
        r@ == spec_name_period(n as int),
    decreases n,
{
    if n <= 19 {
        ones_str(n).to_owned()
    } else if n <= 99 {
        if n % 10 == 0 {
            tens_str(n / 10).to_owned()
        } else {
            let mut r = tens_str(n / 10).to_owned();
            r.append("-");
            r.append(ones_str(n % 10));
            r
        }
    } else if n % 100 == 0 {
        let mut r = ones_str(n / 100).to_owned();
        r.append(" ");
        r.append("hundred");
        r
    } else {
        let mut r = ones_str(n / 100).to_owned();
        r.append(" ");
        r.append("hundred");
        r.append(" ");
        let rest = tiny_integer_name(n % 100);
        r.append(rest.as_str());
        r
    }
}

/// The name of the magnitude m * 1000^i, m >= 1: each nonzero period through
/// tiny_integer_name with its scale word, most significant first, ", "
/// between emitted periods.
fn period_group_name(m: u128, i: usize) -> (r: String)
    requires
        m >= 1,
        (m as nat) * pow1000(i as nat) < pow1000(13),
    ensures
        r@ == spec_group_name(m as nat, i as nat),
    decreases m,
{
    proof {
        lemma_group_step(m as nat, i as nat);
    }
    let p: u16 = (m % 1000) as u16;
    let rest: u128 = m / 1000;
    if p == 0 {
        period_group_name(rest, i + 1)
    } else {
        let mut seg = tiny_integer_name(p);
        if i > 0 {
            seg.append(" ");
            seg.append(scale_str(i));
        }
        if rest == 0 {
            seg
        } else {
            let mut r = period_group_name(rest, i + 1);
            r.append(", ");
            r.append(seg.as_str());
            r
        }
    }
}

/// The English name of a signed 128-bit integer, the most negative value
/// included: the magnitude is widened to an unsigned type before negation,
/// so no input panics or overflows.
pub fn integer_name(x: i128) -> (r: String)
    ensures
        r@ == spec_integer_name(x as int),
{
    if x == 0 {
        return "zero".to_owned();
    }
    let m: u128 = if x >= 0 {
        x as u128
    } else {
        ((-(x + 1)) as u128) + 1
    };
    proof {
        lemma_u128_fits_13_periods();
        assert(pow1000(0) == 1);
        assert((m as nat) * pow1000(0) == m as nat);
    }
    let g = period_group_name(m, 0);
    if x < 0 {
        let mut r = "negative".to_owned();
        r.append(" ");
        r.append(g.as_str());
        r
    } else {
        g
    }
}

/// The English name of an unsigned 128-bit integer, covering the magnitudes
/// beyond the signed maximum.
pub fn integer_name_u128(x: u128) -> (r: String)
    ensures
        r@ == spec_integer_name(x as int),
{
    if x == 0 {
        return "zero".to_owned();
    }
    proof {
        lemma_u128_fits_13_periods();
        assert(pow1000(0) == 1);
        assert((x as nat) * pow1000(0) == x as nat);
    }
    period_group_name(x, 0)
}

} // verus!
