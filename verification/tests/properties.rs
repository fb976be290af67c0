use intname::{integer_name, tiny_integer_name};

#[test]
fn small_lookup_words() {
    let words = [
        "", "one", "two", "three", "four", "five", "six", "seven", "eight", "nine", "ten",
        "eleven", "twelve", "thirteen", "fourteen", "fifteen", "sixteen", "seventeen", "eighteen",
        "nineteen",
    ];
    for n in 0..=19u16 {
        assert_eq!(tiny_integer_name(n), words[n as usize]);
    }
}

#[test]
fn hyphen_iff_not_multiple_of_ten() {
    for n in 20..=99u16 {
        let name = tiny_integer_name(n);
        assert_eq!(name.contains('-'), n % 10 != 0, "value {}: {:?}", n, name);
    }
    assert_eq!(&tiny_integer_name(45), "forty-five");
    assert_eq!(&tiny_integer_name(40), "forty");
}

#[test]
fn hundreds_shape() {
    let digits = [
        "", "one", "two", "three", "four", "five", "six", "seven", "eight", "nine",
    ];
    for n in 100..=999u16 {
        let name = tiny_integer_name(n);
        let head = format!("{} hundred", digits[(n / 100) as usize]);
        assert!(name.starts_with(&head), "value {}: {:?}", n, name);
        if n % 100 == 0 {
            assert_eq!(name, head);
        } else {
            assert_eq!(name, format!("{} {}", head, tiny_integer_name(n % 100)));
        }
    }
}

#[test]
fn name_is_deterministic() {
    for x in [0i128, 1, -1, 42, 650320, -650320, 1000000007, i128::MAX, i128::MIN] {
        assert_eq!(integer_name(x), integer_name(x));
    }
}

#[test]
fn negative_is_prefixed() {
    for x in [1i128, 7, 42, 900, 650320, 1000000007, i128::MAX] {
        assert_eq!(integer_name(-x), format!("negative {}", integer_name(x)));
    }
}

#[test]
fn no_stray_punctuation() {
    let samples = [
        0i128,
        1,
        -1,
        42,
        -42,
        900,
        1000,
        -1000,
        650320,
        1000000007,
        -1000000007,
        1_000_000,
        7_000_000_000_001,
        i128::MAX,
        i128::MIN,
    ];
    for x in samples {
        let name = integer_name(x);
        assert!(!name.contains(", ,"), "value {}: {:?}", x, name);
        assert!(!name.starts_with(','), "value {}: {:?}", x, name);
        assert!(!name.ends_with(','), "value {}: {:?}", x, name);
        assert_eq!(name.trim(), name, "value {}: {:?}", x, name);
        assert!(!name.contains("- "), "value {}: {:?}", x, name);
        assert!(!name.contains(" -"), "value {}: {:?}", x, name);
        assert!(!name.is_empty(), "value {}: {:?}", x, name);
    }
}
