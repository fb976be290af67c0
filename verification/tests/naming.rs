use intname::{integer_name, integer_name_u128, tiny_integer_name};

#[test]
fn tiny_numbers() {
    assert_eq!(&tiny_integer_name(900), "nine hundred");
    assert_eq!(&tiny_integer_name(909), "nine hundred nine");
    assert_eq!(&tiny_integer_name(999), "nine hundred ninety-nine");
}

#[test]
fn small_numbers() {
    assert_eq!(&integer_name(650320), "six hundred fifty thousand, three hundred twenty");
    assert_eq!(&integer_name(123456), "one hundred twenty-three thousand, four hundred fifty-six");
    assert_eq!(&integer_name(293847), "two hundred ninety-three thousand, eight hundred forty-seven");
}

#[test]
fn big_numbers() {
    assert_eq!(&integer_name(-170141183460469231731687303715884105727i128), "negative one hundred seventy undecillion, one hundred forty-one decillion, one hundred eighty-three nonillion, four hundred sixty octillion, four hundred sixty-nine septillion, two hundred thirty-one sextillion, seven hundred thirty-one quintillion, six hundred eighty-seven quadrillion, three hundred three trillion, seven hundred fifteen billion, eight hundred eighty-four million, one hundred five thousand, seven hundred twenty-seven");
    assert_eq!(&integer_name(170141183460469231731687303715884105727i128), "one hundred seventy undecillion, one hundred forty-one decillion, one hundred eighty-three nonillion, four hundred sixty octillion, four hundred sixty-nine septillion, two hundred thirty-one sextillion, seven hundred thirty-one quintillion, six hundred eighty-seven quadrillion, three hundred three trillion, seven hundred fifteen billion, eight hundred eighty-four million, one hundred five thousand, seven hundred twenty-seven");
}

#[test]
fn forty_two() {
    assert_eq!(&integer_name(42), "forty-two");
}

#[test]
fn zero_name() {
    assert_eq!(&integer_name(0), "zero");
    assert_eq!(&integer_name_u128(0), "zero");
}

#[test]
fn one_billion_seven() {
    assert_eq!(&integer_name(1000000007i128), "one billion, seven");
}

#[test]
fn interior_and_trailing_zero_periods() {
    assert_eq!(&integer_name(1_000_000i128), "one million");
    assert_eq!(&integer_name(1_000_007i128), "one million, seven");
    assert_eq!(&integer_name(1_000_000_000_000i128), "one trillion");
    assert_eq!(&integer_name(7_000_000_000_001i128), "seven trillion, one");
}

#[test]
fn every_scale_word() {
    let scales = [
        "thousand",
        "million",
        "billion",
        "trillion",
        "quadrillion",
        "quintillion",
        "sextillion",
        "septillion",
        "octillion",
        "nonillion",
        "decillion",
        "undecillion",
    ];
    let mut x: i128 = 1;
    for scale in scales {
        x *= 1000;
        assert_eq!(integer_name(x), format!("one {}", scale));
    }
}

#[test]
fn most_negative_value() {
    assert_eq!(
        &integer_name(i128::MIN),
        "negative one hundred seventy undecillion, one hundred forty-one decillion, one hundred eighty-three nonillion, four hundred sixty octillion, four hundred sixty-nine septillion, two hundred thirty-one sextillion, seven hundred thirty-one quintillion, six hundred eighty-seven quadrillion, three hundred three trillion, seven hundred fifteen billion, eight hundred eighty-four million, one hundred five thousand, seven hundred twenty-eight"
    );
}

#[test]
fn unsigned_maximum() {
    assert_eq!(
        &integer_name_u128(u128::MAX),
        "three hundred forty undecillion, two hundred eighty-two decillion, three hundred sixty-six nonillion, nine hundred twenty octillion, nine hundred thirty-eight septillion, four hundred sixty-three sextillion, four hundred sixty-three quintillion, three hundred seventy-four quadrillion, six hundred seven trillion, four hundred thirty-one billion, seven hundred sixty-eight million, two hundred eleven thousand, four hundred fifty-five"
    );
}

#[test]
fn unsigned_matches_signed() {
    for x in [1u128, 42, 900, 650320, 1000000007, 170141183460469231731687303715884105727] {
        assert_eq!(integer_name_u128(x), integer_name(x as i128));
    }
}
