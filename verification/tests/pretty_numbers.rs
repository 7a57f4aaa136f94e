use discord_bot::pretty_numbers::{group_digits, PrettiableNumber};

#[test]
fn test_pretty_for_string() {
    assert_eq!("100,000", String::from("100000").pretty());
}

#[test]
fn pretty_short_numbers_get_no_comma() {
    assert_eq!("7", String::from("7").pretty());
    assert_eq!("123", String::from("123").pretty());
}

#[test]
fn pretty_groups_in_threes_from_the_end() {
    assert_eq!("1,234", String::from("1234").pretty());
    assert_eq!("12,345", String::from("12345").pretty());
    assert_eq!("1,234,567", String::from("1234567").pretty());
    assert_eq!("9,223,372,036,854,775,807", String::from("9223372036854775807").pretty());
}

#[test]
fn pretty_drops_bytes_that_are_not_digits() {
    assert_eq!("1,234", String::from("-1234").pretty());
    assert_eq!("1234", String::from("12a34").pretty());
    assert_eq!("5", String::from("x5y").pretty());
}

#[test]
fn pretty_counts_positions_over_all_bytes() {
    // Commas of the input are dropped but still count as positions.
    assert_eq!("12,34,567", String::from("1,234,567").pretty());
}

#[test]
fn pretty_keeps_the_digits_in_order() {
    for text in ["100000", "98765432101", "1,2,3", "-42", "0007"] {
        let grouped = String::from(text).pretty();
        let without: String = grouped.chars().filter(|c| *c != ',').collect();
        let digits: String = text.chars().filter(|c| c.is_ascii_digit()).collect();
        assert_eq!(without, digits);
    }
}

#[test]
fn pretty_length_of_a_digit_string() {
    for n in 1..=20usize {
        let text = "9".repeat(n);
        assert_eq!(String::from(text.as_str()).pretty().len(), n + (n - 1) / 3);
    }
}

#[test]
fn group_digits_on_bytes() {
    assert_eq!(group_digits(b"1000"), b"1,000".to_vec());
    assert_eq!(group_digits(b"abc1"), b"1".to_vec());
}

#[test]
fn pretty_commas_stand_every_fourth_place_from_the_end() {
    for n in 1..=20usize {
        let grouped = String::from("8".repeat(n).as_str()).pretty();
        let bytes = grouped.as_bytes();
        for (p, b) in bytes.iter().enumerate() {
            assert_eq!(*b == b',', (bytes.len() - p) % 4 == 0);
        }
    }
}
