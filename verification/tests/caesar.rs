use coursework::caesar::{abs_modulo, caesar_shift, shift, to_ascii};

#[test]
fn shifts_each_line_by_the_given_amount() {
    let out = caesar_shift(Some(1), vec!["abc XYZ".to_string(), "Hello, World!".to_string()]);
    assert_eq!(out, vec!["bcd YZA".to_string(), "Ifmmp, Xpsme!".to_string()]);
}

#[test]
fn default_shift_is_thirteen() {
    let out = caesar_shift(None, vec!["Hello".to_string()]);
    assert_eq!(out, vec!["Uryyb".to_string()]);
}

#[test]
fn negative_and_large_shifts_wrap_around() {
    assert_eq!(shift(-1, "abz".to_string()), "zay");
    assert_eq!(shift(27, "Az".to_string()), "Ba");
    assert_eq!(shift(i32::MIN, "a".to_string()), "c");
    assert_eq!(shift(i32::MAX, "a".to_string()), "x");
}

#[test]
fn other_characters_are_kept() {
    assert_eq!(shift(3, "é 1-2 ü!".to_string()), "é 1-2 ü!");
    assert_eq!(caesar_shift(Some(5), vec![]), Vec::<String>::new());
}

#[test]
fn shifting_back_restores_the_text() {
    let text = "The Quick Brown Fox".to_string();
    let there = shift(11, text.clone());
    assert_eq!(shift(-11, there), text);
}

#[test]
fn abs_modulo_is_the_magnitude_of_the_remainder() {
    assert_eq!(abs_modulo(-7, 3), 1);
    assert_eq!(abs_modulo(7, -3), 1);
    assert_eq!(abs_modulo(28, 26), 2);
    assert_eq!(abs_modulo(i32::MIN, 26), 24);
}

#[test]
fn to_ascii_gives_the_character_of_a_code() {
    assert_eq!(to_ascii(65), 'A');
    assert_eq!(to_ascii(122), 'z');
}
