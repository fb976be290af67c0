//! Structural properties of the produced names, stated over the spec
//! functions that the executable contracts use: every name is a tidy phrase
//! (no stray separators, no leading or trailing punctuation), small values
//! hyphenate exactly when they must, hundreds have their fixed shape, and a
//! negative value carries exactly the "negative " prefix.

use vstd::prelude::*;

use crate::naming::pow1000;
use crate::naming::spec_group_name;
use crate::naming::spec_integer_name;
use crate::naming::spec_name_period;
use crate::naming::spec_segment;
use crate::naming::lemma_group_step;
use crate::naming::lemma_u128_fits_13_periods;
use crate::words::is_word_char;
use crate::words::ones_word;
use crate::words::scale_word;
use crate::words::tens_word;
use crate::words::word_like;
use crate::words::lemma_ones_word_like;
use crate::words::lemma_scale_word_like;
use crate::words::lemma_tens_word_like;

verus! {

/// A tidy phrase: nonempty, starting and ending on a letter, every comma
/// followed by a space and preceded by a letter, every hyphen between two
/// letters.  This is what rules out "", stray ", ,", a separator at either
/// end, and a hyphen beside a space.
pub open spec fn tidy(s: Seq<char>) -> bool {
    &&& s.len() > 0
    &&& is_word_char(s[0])
    &&& is_word_char(s[s.len() - 1])
    &&& forall|k: int| 0 <= k < s.len() && #[trigger] s[k] == ',' ==> k + 1 < s.len() && s[k + 1]
        == ' '
    &&& forall|k: int| 0 < k < s.len() && #[trigger] s[k] == ',' ==> is_word_char(s[k - 1])
    &&& forall|k: int|
        0 <= k < s.len() && #[trigger] s[k] == '-' ==> 0 < k && k + 1 < s.len() && is_word_char(
            s[k - 1],
        ) && is_word_char(s[k + 1])
}

/// A bare word is a tidy phrase.
pub proof fn lemma_word_tidy(s: Seq<char>)
    requires
        word_like(s),
    ensures
        tidy(s),
{
}

/// Joining two tidy phrases with a single space keeps them tidy.
pub proof fn lemma_tidy_join_space(a: Seq<char>, b: Seq<char>)
    requires
        tidy(a),
        tidy(b),
    ensures
        tidy(a + " "@ + b),
{
    reveal_strlit(" ");
    let s = a + " "@ + b;
    assert(s.len() == a.len() + 1 + b.len());
    assert(s[0] == a[0]);
    assert(s[s.len() - 1] == b[b.len() - 1]);
    assert forall|k: int| 0 <= k < s.len() && #[trigger] s[k] == ',' implies k + 1 < s.len() && s[k
        + 1] == ' ' by {
        if k < a.len() {
            assert(s[k] == a[k]);
            assert(s[k + 1] == a[k + 1]);
        } else if k == a.len() {
            assert(s[k] == ' ');
        } else {
            let j = k - a.len() - 1;
            assert(s[k] == b[j]);
            assert(s[k + 1] == b[j + 1]);
        }
    }
    assert forall|k: int| 0 < k < s.len() && #[trigger] s[k] == ',' implies is_word_char(
        s[k - 1],
    ) by {
        if k < a.len() {
            assert(s[k] == a[k]);
            assert(s[k - 1] == a[k - 1]);
        } else if k == a.len() {
            assert(s[k] == ' ');
        } else {
            let j = k - a.len() - 1;
            assert(s[k] == b[j]);
            if j > 0 {
                assert(s[k - 1] == b[j - 1]);
            } else {
                assert(b[0] == s[k]);
            }
        }
    }
    assert forall|k: int| 0 <= k < s.len() && #[trigger] s[k] == '-' implies 0 < k && k + 1
        < s.len() && is_word_char(s[k - 1]) && is_word_char(s[k + 1]) by {
        if k < a.len() {
            assert(s[k] == a[k]);
            assert(s[k - 1] == a[k - 1]);
            assert(s[k + 1] == a[k + 1]);
        } else if k == a.len() {
            assert(s[k] == ' ');
        } else {
            let j = k - a.len() - 1;
            assert(s[k] == b[j]);
            assert(s[k - 1] == if j > 0 { b[j - 1] } else { ' ' });
            assert(s[k + 1] == b[j + 1]);
        }
    }
}

/// Joining two tidy phrases with a bare hyphen keeps them tidy.
pub proof fn lemma_tidy_join_hyphen(a: Seq<char>, b: Seq<char>)
    requires
        tidy(a),
        tidy(b),
    ensures
        tidy(a + "-"@ + b),
{
    reveal_strlit("-");
    let s = a + "-"@ + b;
    assert(s.len() == a.len() + 1 + b.len());
    assert(s[0] == a[0]);
    assert(s[s.len() - 1] == b[b.len() - 1]);
    assert forall|k: int| 0 <= k < s.len() && #[trigger] s[k] == ',' implies k + 1 < s.len() && s[k
        + 1] == ' ' by {
        if k < a.len() {
            assert(s[k] == a[k]);
            assert(s[k + 1] == a[k + 1]);
        } else if k == a.len() {
            assert(s[k] == '-');
        } else {
            let j = k - a.len() - 1;
            assert(s[k] == b[j]);
            assert(s[k + 1] == b[j + 1]);
        }
    }
    assert forall|k: int| 0 < k < s.len() && #[trigger] s[k] == ',' implies is_word_char(
        s[k - 1],
    ) by {
        if k < a.len() {
            assert(s[k] == a[k]);
            assert(s[k - 1] == a[k - 1]);
        } else if k == a.len() {
            assert(s[k] == '-');
        } else {
            let j = k - a.len() - 1;
            assert(s[k] == b[j]);
            if j > 0 {
                assert(s[k - 1] == b[j - 1]);
            } else {
                assert(b[0] == s[k]);
            }
        }
    }
    assert forall|k: int| 0 <= k < s.len() && #[trigger] s[k] == '-' implies 0 < k && k + 1
        < s.len() && is_word_char(s[k - 1]) && is_word_char(s[k + 1]) by {
        if k < a.len() {
            assert(s[k] == a[k]);
            assert(s[k - 1] == a[k - 1]);
            assert(s[k + 1] == a[k + 1]);
        } else if k == a.len() {
            assert(s[k - 1] == a[a.len() - 1]);
            assert(s[k + 1] == b[0]);
        } else {
            let j = k - a.len() - 1;
            assert(s[k] == b[j]);
            if j > 0 {
                assert(s[k - 1] == b[j - 1]);
            } else {
                assert(b[0] == s[k]);
            }
            assert(s[k + 1] == b[j + 1]);
        }
    }
}

/// Joining two tidy phrases with the period separator ", " keeps them tidy.
pub proof fn lemma_tidy_join_comma(a: Seq<char>, b: Seq<char>)
    requires
        tidy(a),
        tidy(b),
    ensures
        tidy(a + ", "@ + b),
{
    reveal_strlit(", ");
    let s = a + ", "@ + b;
    assert(s.len() == a.len() + 2 + b.len());
    assert(s[0] == a[0]);
    assert(s[s.len() - 1] == b[b.len() - 1]);
    assert forall|k: int| 0 <= k < s.len() && #[trigger] s[k] == ',' implies k + 1 < s.len() && s[k
        + 1] == ' ' by {
        if k < a.len() {
            assert(s[k] == a[k]);
            assert(s[k + 1] == a[k + 1]);
        } else if k == a.len() {
            assert(s[k + 1] == ' ');
        } else if k == a.len() + 1 {
            assert(s[k] == ' ');
        } else {
            let j = k - a.len() - 2;
            assert(s[k] == b[j]);
            assert(s[k + 1] == b[j + 1]);
        }
    }
    assert forall|k: int| 0 < k < s.len() && #[trigger] s[k] == ',' implies is_word_char(
        s[k - 1],
    ) by {
        if k < a.len() {
            assert(s[k] == a[k]);
            assert(s[k - 1] == a[k - 1]);
        } else if k == a.len() {
            assert(s[k - 1] == a[a.len() - 1]);
        } else if k == a.len() + 1 {
            assert(s[k] == ' ');
        } else {
            let j = k - a.len() - 2;
            assert(s[k] == b[j]);
            if j > 0 {
                assert(s[k - 1] == b[j - 1]);
            } else {
                assert(b[0] == s[k]);
            }
        }
    }
    assert forall|k: int| 0 <= k < s.len() && #[trigger] s[k] == '-' implies 0 < k && k + 1
        < s.len() && is_word_char(s[k - 1]) && is_word_char(s[k + 1]) by {
        if k < a.len() {
            assert(s[k] == a[k]);
            assert(s[k - 1] == a[k - 1]);
            assert(s[k + 1] == a[k + 1]);
        } else if k == a.len() {
            assert(s[k] == ',');
        } else if k == a.len() + 1 {
            assert(s[k] == ' ');
        } else {
            let j = k - a.len() - 2;
            assert(s[k] == b[j]);
            if j > 0 {
                assert(s[k - 1] == b[j - 1]);
            } else {
                assert(b[0] == s[k]);
            }
            assert(s[k + 1] == b[j + 1]);
        }
    }
}

/// The words that stand outside the three tables.
pub proof fn lemma_plain_words_like()
    ensures
        word_like("hundred"@),
        word_like("zero"@),
        word_like("negative"@),
{
    reveal_strlit("hundred");
    reveal_strlit("zero");
    reveal_strlit("negative");
}

/// The name of any nonzero period value is a tidy phrase.
pub proof fn lemma_name_period_tidy(n: int)
    requires
        1 <= n <= 999,
    ensures
        tidy(spec_name_period(n)),
    decreases n,
{
    if n <= 19 {
        lemma_ones_word_like(n);
        lemma_word_tidy(ones_word(n));
    } else if n <= 99 {
        lemma_tens_word_like(n / 10);
        lemma_word_tidy(tens_word(n / 10));
        if n % 10 != 0 {
            lemma_ones_word_like(n % 10);
            lemma_word_tidy(ones_word(n % 10));
            lemma_tidy_join_hyphen(tens_word(n / 10), ones_word(n % 10));
        }
    } else {
        lemma_plain_words_like();
        lemma_ones_word_like(n / 100);
        lemma_word_tidy(ones_word(n / 100));
        lemma_word_tidy("hundred"@);
        lemma_tidy_join_space(ones_word(n / 100), "hundred"@);
        if n % 100 != 0 {
            lemma_name_period_tidy(n % 100);
            lemma_tidy_join_space(ones_word(n / 100) + " "@ + "hundred"@, spec_name_period(n % 100));
        }
    }
}

/// One emitted period, scale word included, is a tidy phrase.
pub proof fn lemma_segment_tidy(n: int, i: int)
    requires
        1 <= n <= 999,
        0 <= i <= 12,
    ensures
        tidy(spec_segment(n, i)),
{
    lemma_name_period_tidy(n);
    if i > 0 {
        lemma_scale_word_like(i);
        lemma_word_tidy(scale_word(i));
        lemma_tidy_join_space(spec_name_period(n), scale_word(i));
    }
}

/// The assembled name of any magnitude in range is a tidy phrase.
pub proof fn lemma_group_name_tidy(m: nat, i: nat)
    requires
        m >= 1,
        m * pow1000(i) < pow1000(13),
    ensures
        tidy(spec_group_name(m, i)),
    decreases m,
{
    lemma_group_step(m, i);
    if m % 1000 == 0 {
        lemma_group_name_tidy(m / 1000, i + 1);
    } else if m < 1000 {
        lemma_segment_tidy(m as int, i as int);
    } else {
        lemma_group_name_tidy(m / 1000, i + 1);
        lemma_segment_tidy((m % 1000) as int, i as int);
        lemma_tidy_join_comma(
            spec_group_name(m / 1000, i + 1),
            spec_segment((m % 1000) as int, i as int),
        );
    }
}

/// The full name of any 128-bit value, of either sign, is a tidy phrase.
pub proof fn lemma_integer_name_tidy(x: int)
    requires
        -(u128::MAX as int) <= x <= u128::MAX as int,
    ensures
        tidy(spec_integer_name(x)),
{
    lemma_plain_words_like();
    lemma_u128_fits_13_periods();
    if x == 0 {
        lemma_word_tidy("zero"@);
    } else {
        let m = if x < 0 {
            (-x) as nat
        } else {
            x as nat
        };
        assert(pow1000(0) == 1);
        assert(m * pow1000(0) == m);
        lemma_group_name_tidy(m, 0);
        if x < 0 {
            lemma_word_tidy("negative"@);
            lemma_tidy_join_space("negative"@, spec_group_name(m, 0));
        }
    }
}

/// Up to nineteen, the name of a period value is the fixed lookup word, the
/// empty fragment for zero.
pub proof fn lemma_small_lookup(n: int)
    requires
        0 <= n <= 19,
    ensures
        spec_name_period(n) == ones_word(n),
        n == 0 ==> spec_name_period(n) == Seq::<char>::empty(),
        n >= 1 ==> word_like(spec_name_period(n)),
{
    if n >= 1 {
        lemma_ones_word_like(n);
    }
}

/// From twenty to ninety-nine, the name contains a hyphen exactly when the
/// value is no multiple of ten.
pub proof fn lemma_tens_hyphen(n: int)
    requires
        20 <= n <= 99,
    ensures
        spec_name_period(n).contains('-') <==> n % 10 != 0,
{
    lemma_tens_word_like(n / 10);
    if n % 10 == 0 {
        let s = spec_name_period(n);
        assert(!s.contains('-')) by {
            if s.contains('-') {
                let k = choose|k: int| 0 <= k < s.len() && s[k] == '-';
                assert(is_word_char(s[k]));
            }
        }
    } else {
        reveal_strlit("-");
        lemma_ones_word_like(n % 10);
        let s = spec_name_period(n);
        let t = tens_word(n / 10);
        assert(s.contains('-')) by {
            assert(s[t.len() as int] == '-');
        }
    }
}

/// From one hundred to nine hundred ninety-nine, the name starts with
/// "<digit> hundred", and exactly when the value is no exact hundred it goes
/// on with one space and the name of the remainder.
pub proof fn lemma_hundreds_shape(n: int)
    requires
        100 <= n <= 999,
    ensures
        (ones_word(n / 100) + " "@ + "hundred"@).is_prefix_of(spec_name_period(n)),
        n % 100 == 0 ==> spec_name_period(n) == ones_word(n / 100) + " "@ + "hundred"@,
        n % 100 != 0 ==> spec_name_period(n) == ones_word(n / 100) + " "@ + "hundred"@ + " "@
            + spec_name_period(n % 100),
{
    let h = ones_word(n / 100) + " "@ + "hundred"@;
    let s = spec_name_period(n);
    assert(h =~= s.subrange(0, h.len() as int));
}

/// The name of a negated positive value is the name of the value behind the
/// prefix "negative ".  Stated for positive x: for negative x the roles of
/// the two sides swap, so the equation as written does not hold there.
pub proof fn lemma_negative_name(x: int)
    requires
        x > 0,
    ensures
        spec_integer_name(-x) == "negative "@ + spec_integer_name(x),
{
    reveal_strlit("negative ");
    reveal_strlit("negative");
    reveal_strlit(" ");
    assert("negative "@ =~= "negative"@ + " "@);
    assert("negative "@ + spec_integer_name(x) =~= "negative"@ + " "@ + spec_group_name(
        x as nat,
        0,
    ));
}

/// No stray punctuation anywhere in a name: never the fragment ", ,", never
/// a comma or whitespace at either end, never a hyphen beside a space.
pub proof fn lemma_no_stray_punctuation(x: int)
    requires
        -(u128::MAX as int) <= x <= u128::MAX as int,
    ensures
        spec_integer_name(x).len() > 0,
        spec_integer_name(x)[0] != ',' && spec_integer_name(x)[0] != ' ',
        spec_integer_name(x)[spec_integer_name(x).len() - 1] != ',' && spec_integer_name(
            x,
        )[spec_integer_name(x).len() - 1] != ' ',
        forall|k: int|
            0 <= k && k + 3 <= spec_integer_name(x).len() ==> #[trigger] spec_integer_name(
                x,
            ).subrange(k, k + 3) != ", ,"@,
        forall|k: int|
            0 <= k && k + 1 < spec_integer_name(x).len() ==> !(#[trigger] spec_integer_name(x)[k]
                == '-' && spec_integer_name(x)[k + 1] == ' ') && !(spec_integer_name(x)[k] == ' '
                && spec_integer_name(x)[k + 1] == '-'),
{
    lemma_integer_name_tidy(x);
    reveal_strlit(", ,");
    let s = spec_integer_name(x);
    assert forall|k: int| 0 <= k && k + 3 <= s.len() implies #[trigger] s.subrange(k, k + 3)
        != ", ,"@ by {
        if s.subrange(k, k + 3) == ", ,"@ {
            assert(s[k + 1] == s.subrange(k, k + 3)[1]);
            assert(s[k + 2] == s.subrange(k, k + 3)[2]);
            assert(is_word_char(s[k + 1]));
        }
    }
}

} // verus!
