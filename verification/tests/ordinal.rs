use humanize::ordinal::{ordinal, ordinal_of};

#[test]
fn test_ordinal() {
    struct OrdinalTest(String, &'static str);

    let tests = vec![
        OrdinalTest(ordinal(0), "0th"),
        OrdinalTest(ordinal(1), "1st"),
        OrdinalTest(ordinal(2), "2nd"),
        OrdinalTest(ordinal(3), "3rd"),
        OrdinalTest(ordinal(4), "4th"),
        OrdinalTest(ordinal(10), "10th"),
        OrdinalTest(ordinal(11), "11th"),
        OrdinalTest(ordinal(12), "12th"),
        OrdinalTest(ordinal(13), "13th"),
        OrdinalTest(ordinal(14), "14th"),
        OrdinalTest(ordinal(100), "100th"),
        OrdinalTest(ordinal(101), "101st"),
        OrdinalTest(ordinal(102), "102nd"),
        OrdinalTest(ordinal(103), "103rd"),
        OrdinalTest(ordinal(104), "104th"),
    ];

    tests.iter().for_each(|test| assert_eq!(test.0, test.1));
}

#[test]
fn teens_take_th_in_every_hundred() {
    assert_eq!(ordinal_of(111), "111th");
    assert_eq!(ordinal_of(112), "112th");
    assert_eq!(ordinal_of(113), "113th");
    assert_eq!(ordinal_of(1_011), "1011th");
    assert_eq!(ordinal_of(121), "121st");
    assert_eq!(ordinal_of(122), "122nd");
    assert_eq!(ordinal_of(123), "123rd");
}

#[test]
fn ordinal_takes_any_integer_that_widens() {
    assert_eq!(ordinal(21u8), "21st");
    assert_eq!(ordinal(22i16), "22nd");
    assert_eq!(ordinal(4_000_000_003u32), "4000000003rd");
    assert_eq!(ordinal(i64::MAX), "9223372036854775807th");
}

#[test]
fn negative_numbers_take_th() {
    assert_eq!(ordinal_of(-1), "-1th");
    assert_eq!(ordinal_of(-2), "-2th");
    assert_eq!(ordinal_of(-3), "-3th");
    assert_eq!(ordinal_of(-11), "-11th");
    assert_eq!(ordinal_of(-21), "-21th");
    assert_eq!(ordinal(-40i32), "-40th");
    assert_eq!(ordinal_of(i64::MIN), "-9223372036854775808th");
}

#[test]
fn ordinal_is_the_number_and_one_suffix() {
    for n in -250i64..=1_250 {
        let text = ordinal_of(n);
        let digits = n.to_string();
        assert!(text.starts_with(&digits));
        assert_eq!(text.len(), digits.len() + 2);
        let suffix = &text[digits.len()..];
        let matching = ["st", "nd", "rd", "th"].iter().filter(|s| **s == suffix).count();
        assert_eq!(matching, 1);
    }
}

#[test]
fn ordinal_gives_the_same_text_every_time() {
    for n in [-7i64, 0, 1, 12, 23, 1_000_001] {
        assert_eq!(ordinal_of(n), ordinal_of(n));
        assert_eq!(ordinal(n), ordinal_of(n));
    }
}
