use gonhanh_core::data::chars::{get_d, to_char};
use gonhanh_core::data::keys;

#[test]
fn test_basic_vowels() {
    assert_eq!(to_char(keys::A, false, 0, 0), Some('a'));
    assert_eq!(to_char(keys::E, false, 0, 0), Some('e'));
    assert_eq!(to_char(keys::I, false, 0, 0), Some('i'));
    assert_eq!(to_char(keys::O, false, 0, 0), Some('o'));
    assert_eq!(to_char(keys::U, false, 0, 0), Some('u'));
    assert_eq!(to_char(keys::Y, false, 0, 0), Some('y'));
}

#[test]
fn test_tone_modifiers() {
    // circumflex
    assert_eq!(to_char(keys::A, false, 1, 0), Some('â'));
    assert_eq!(to_char(keys::E, false, 1, 0), Some('ê'));
    assert_eq!(to_char(keys::O, false, 1, 0), Some('ô'));
    // horn and breve
    assert_eq!(to_char(keys::A, false, 2, 0), Some('ă'));
    assert_eq!(to_char(keys::O, false, 2, 0), Some('ơ'));
    assert_eq!(to_char(keys::U, false, 2, 0), Some('ư'));
}

#[test]
fn test_marks() {
    assert_eq!(to_char(keys::A, false, 0, 1), Some('á'));
    assert_eq!(to_char(keys::A, false, 0, 2), Some('à'));
    assert_eq!(to_char(keys::A, false, 0, 3), Some('ả'));
    assert_eq!(to_char(keys::A, false, 0, 4), Some('ã'));
    assert_eq!(to_char(keys::A, false, 0, 5), Some('ạ'));
}

#[test]
fn test_combined_tone_and_mark() {
    assert_eq!(to_char(keys::A, false, 1, 1), Some('ấ'));
    assert_eq!(to_char(keys::O, false, 2, 2), Some('ờ'));
    assert_eq!(to_char(keys::U, false, 2, 5), Some('ự'));
}

#[test]
fn test_uppercase() {
    assert_eq!(to_char(keys::A, true, 0, 0), Some('A'));
    assert_eq!(to_char(keys::A, true, 0, 1), Some('Á'));
    assert_eq!(to_char(keys::A, true, 1, 1), Some('Ấ'));
    assert_eq!(to_char(keys::O, true, 2, 2), Some('Ờ'));
    assert_eq!(to_char(keys::U, true, 2, 5), Some('Ự'));
}

#[test]
fn test_d() {
    assert_eq!(get_d(false), 'đ');
    assert_eq!(get_d(true), 'Đ');
}
