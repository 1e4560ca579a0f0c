use gonhanh_core::data::keys;
use gonhanh_core::engine::{Action, Engine};

fn char_to_key(c: char) -> u16 {
    match c.to_ascii_lowercase() {
        'a' => keys::A,
        'b' => keys::B,
        'c' => keys::C,
        'd' => keys::D,
        'e' => keys::E,
        'f' => keys::F,
        'g' => keys::G,
        'h' => keys::H,
        'i' => keys::I,
        'j' => keys::J,
        'k' => keys::K,
        'l' => keys::L,
        'm' => keys::M,
        'n' => keys::N,
        'o' => keys::O,
        'p' => keys::P,
        'q' => keys::Q,
        'r' => keys::R,
        's' => keys::S,
        't' => keys::T,
        'u' => keys::U,
        'v' => keys::V,
        'w' => keys::W,
        'x' => keys::X,
        'y' => keys::Y,
        'z' => keys::Z,
        '0' => keys::N0,
        '1' => keys::N1,
        '2' => keys::N2,
        '3' => keys::N3,
        '4' => keys::N4,
        '5' => keys::N5,
        '6' => keys::N6,
        '7' => keys::N7,
        '8' => keys::N8,
        '9' => keys::N9,
        '<' => keys::DELETE,
        ' ' => keys::SPACE,
        _ => 255,
    }
}

/// Type a string on a virtual screen, applying each edit the engine returns.
fn type_word(e: &mut Engine, input: &str) -> String {
    let mut screen: Vec<char> = Vec::new();
    for c in input.chars() {
        let key = char_to_key(c);
        if key == keys::DELETE {
            screen.pop();
            e.on_key(key, false, false);
            continue;
        }
        let caps = c.is_uppercase();
        let r = e.on_key(key, caps, false);
        if r.action == Action::Send {
            for _ in 0..r.backspace {
                screen.pop();
            }
            for ch in r.chars {
                screen.push(ch);
            }
        } else if key == keys::SPACE {
            // fall through: the break character itself is inserted below
        } else if key <= keys::N9 {
            screen.push(if caps { c.to_ascii_uppercase() } else { c.to_ascii_lowercase() });
        }
        if key == keys::SPACE {
            screen.push(' ');
        }
    }
    screen.into_iter().collect()
}

fn run_telex(cases: &[(&str, &str)]) {
    for (input, expected) in cases {
        let mut e = Engine::new();
        let result = type_word(&mut e, input);
        assert_eq!(result, *expected, "telex input {:?}", input);
    }
}

fn run_vni(cases: &[(&str, &str)]) {
    for (input, expected) in cases {
        let mut e = Engine::new();
        e.set_method(1);
        let result = type_word(&mut e, input);
        assert_eq!(result, *expected, "vni input {:?}", input);
    }
}

fn test_telex(input: &str, expected: &str) {
    run_telex(&[(input, expected)]);
}

fn test_vni(input: &str, expected: &str) {
    run_vni(&[(input, expected)]);
}


#[test]
fn revert_then_more_chars_keeps_post_revert_result() {
    run_telex(&[("tesst ", "test ")]);
}

#[test]
fn invalid_initial_no_transform() {
    // f is no Vietnamese initial, so no mark is ever applied
    run_telex(&[("for ", "for "), ("forr ", "forr "), ("foxx ", "foxx ")]);
}

#[test]
fn double_vowel_with_mark() {
    run_telex(&[("maas ", "mấ ")]);
}

#[test]
fn basic_mark_apply_revert() {
    run_telex(&[("car", "cả"), ("carr", "car"), ("carre", "care")]);
}

#[test]
fn delayed_stroke_basic() {
    run_telex(&[("ddau ", "đau "), ("ddinrh ", "đỉnh ")]);
}

#[test]
fn double_d_valid_vietnamese() {
    run_telex(&[("ddau ", "đau "), ("ddinrh ", "đỉnh ")]);
}

#[test]
fn delayed_stroke_with_vowel_between() {
    run_telex(&[("dadu ", "đau "), ("didnrh ", "đỉnh ")]);
}

#[test]
fn test_oe_oa_tone_placement() {
    let cases = [
        ("choes ", "chóe "),
        ("hoas ", "hóa "),
        ("doas ", "dóa "),
        ("doaj ", "dọa "),
        ("loas ", "lóa "),
        ("toats ", "toát "),
    ];
    for (input, expected) in cases {
        let mut e = Engine::new();
        e.set_modern_tone(false);
        let result = type_word(&mut e, input);
        assert_eq!(result, expected, "input {:?}", input);
    }
}

#[test]
fn stroke_double_reverts() {
    // a third d takes the stroke back and leaves the literal letters
    test_telex("ddd", "dd");
}

#[test]
fn w_as_vowel_reverts() {
    test_telex("ww", "ww");
    test_telex("wwa", "wwa");
}
