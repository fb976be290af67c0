//! The fixed word tables: the words for 0..=19, the multiples of ten, and the
//! scale attached to each base-1000 period, together with the fact that each
//! word consists of lowercase letters only.

use vstd::prelude::*;

verus! {

/// The word for a value in [0, 19]; the empty sequence for 0 (a zero period
/// contributes nothing) and for anything out of range.
pub open spec fn ones_word(n: int) -> Seq<char> {
    if n == 1 {
        "one"@
    } else if n == 2 {
        "two"@
    } else if n == 3 {
        "three"@
    } else if n == 4 {
        "four"@
    } else if n == 5 {
        "five"@
    } else if n == 6 {
        "six"@
    } else if n == 7 {
        "seven"@
    } else if n == 8 {
        "eight"@
    } else if n == 9 {
        "nine"@
    } else if n == 10 {
        "ten"@
    } else if n == 11 {
        "eleven"@
    } else if n == 12 {
        "twelve"@
    } else if n == 13 {
        "thirteen"@
    } else if n == 14 {
        "fourteen"@
    } else if n == 15 {
        "fifteen"@
    } else if n == 16 {
        "sixteen"@
    } else if n == 17 {
        "seventeen"@
    } else if n == 18 {
        "eighteen"@
    } else if n == 19 {
        "nineteen"@
    } else {
        Seq::<char>::empty()
    }
}

/// The word for t tens, t in [2, 9]; the empty sequence out of range.
pub open spec fn tens_word(t: int) -> Seq<char> {
    if t == 2 {
        "twenty"@
    } else if t == 3 {
        "thirty"@
    } else if t == 4 {
        "forty"@
    } else if t == 5 {
        "fifty"@
    } else if t == 6 {
        "sixty"@
    } else if t == 7 {
        "seventy"@
    } else if t == 8 {
        "eighty"@
    } else if t == 9 {
        "ninety"@
    } else {
        Seq::<char>::empty()
    }
}

/// The scale word for period index i in [1, 12]; the empty sequence for the
/// ones period (index 0) and for anything out of range.
pub open spec fn scale_word(i: int) -> Seq<char> {
    if i == 1 {
        "thousand"@
    } else if i == 2 {
        "million"@
    } else if i == 3 {
        "billion"@
    } else if i == 4 {
        "trillion"@
    } else if i == 5 {
        "quadrillion"@
    } else if i == 6 {
        "quintillion"@
    } else if i == 7 {
        "sextillion"@
    } else if i == 8 {
        "septillion"@
    } else if i == 9 {
        "octillion"@
    } else if i == 10 {
        "nonillion"@
    } else if i == 11 {
        "decillion"@
    } else if i == 12 {
        "undecillion"@
    } else {
        Seq::<char>::empty()
    }
}

/// A lowercase letter: the only characters the word tables use.
pub open spec fn is_word_char(c: char) -> bool {
    'a' <= c && c <= 'z'
}

/// A nonempty run of lowercase letters.
pub open spec fn word_like(s: Seq<char>) -> bool {
    &&& s.len() > 0
    &&& forall|k: int| 0 <= k < s.len() ==> is_word_char(#[trigger] s[k])
}

pub proof fn lemma_ones_word_like(n: int)
    requires
        1 <= n <= 19,
    ensures
        word_like(ones_word(n)),
{
    reveal_strlit("one");
    reveal_strlit("two");
    reveal_strlit("three");
    reveal_strlit("four");
    reveal_strlit("five");
    reveal_strlit("six");
    reveal_strlit("seven");
    reveal_strlit("eight");
    reveal_strlit("nine");
    reveal_strlit("ten");
    reveal_strlit("eleven");
    reveal_strlit("twelve");
    reveal_strlit("thirteen");
    reveal_strlit("fourteen");
    reveal_strlit("fifteen");
    reveal_strlit("sixteen");
    reveal_strlit("seventeen");
    reveal_strlit("eighteen");
    reveal_strlit("nineteen");
}

pub proof fn lemma_tens_word_like(t: int)
    requires
        2 <= t <= 9,
    ensures
        word_like(tens_word(t)),
{
    reveal_strlit("twenty");
    reveal_strlit("thirty");
    reveal_strlit("forty");
    reveal_strlit("fifty");
    reveal_strlit("sixty");
    reveal_strlit("seventy");
    reveal_strlit("eighty");
    reveal_strlit("ninety");
}

pub proof fn lemma_scale_word_like(i: int)
    requires
        1 <= i <= 12,
    ensures
        word_like(scale_word(i)),
{
    reveal_strlit("thousand");
    reveal_strlit("million");
    reveal_strlit("billion");
    reveal_strlit("trillion");
    reveal_strlit("quadrillion");
    reveal_strlit("quintillion");
    reveal_strlit("sextillion");
    reveal_strlit("septillion");
    reveal_strlit("octillion");
    reveal_strlit("nonillion");
    reveal_strlit("decillion");
    reveal_strlit("undecillion");
}

/// The word for a value in [0, 19], as a string slice.
pub(crate) fn ones_str(n: u16) -> (r: &'static str)
    requires
        n <= 19,
    ensures
        r@ == ones_word(n as int),
{
    proof {
        reveal_strlit("");
        assert(""@ =~= Seq::<char>::empty());
    }
    match n {
        0 => "",
        1 => "one",
        2 => "two",
        3 => "three",
        4 => "four",
        5 => "five",
        6 => "six",
        7 => "seven",
        8 => "eight",
        9 => "nine",
        10 => "ten",
        11 => "eleven",
        12 => "twelve",
        13 => "thirteen",
        14 => "fourteen",
        15 => "fifteen",
        16 => "sixteen",
        17 => "seventeen",
        18 => "eighteen",
        _ => "nineteen",
    }
}

/// The word for t tens, t in [2, 9], as a string slice.
pub(crate) fn tens_str(t: u16) -> (r: &'static str)
    requires
        2 <= t <= 9,
    ensures
        r@ == tens_word(t as int),
{
    match t {
        2 => "twenty",
        3 => "thirty",
        4 => "forty",
        5 => "fifty",
        6 => "sixty",
        7 => "seventy",
        8 => "eighty",
        _ => "ninety",
    }
}

/// The scale word for period index i in [1, 12], as a string slice.
pub(crate) fn scale_str(i: usize) -> (r: &'static str)
    requires
        1 <= i <= 12,
    ensures
        r@ == scale_word(i as int),
{
    match i {
        1 => "thousand",
        2 => "million",
        3 => "billion",
        4 => "trillion",
        5 => "quadrillion",
        6 => "quintillion",
        7 => "sextillion",
        8 => "septillion",
        9 => "octillion",
        10 => "nonillion",
        11 => "decillion",
        _ => "undecillion",
    }
}

} // verus!
