use gonhanh_core::data::keys;
use gonhanh_core::engine::{Action, Engine};

fn char_to_key(c: char) -> u16 {
    match c.to_ascii_lowercase() {
        'a' => keys::A,
        'b' => keys::B,
        'c' => keys::C,
        'd' => keys::D,
        'e' => keys::E,
        'f' => keys::F,
        'g' => keys::G,
        'h' => keys::H,
        'i' => keys::I,
        'j' => keys::J,
        'k' => keys::K,
        'l' => keys::L,
        'm' => keys::M,
        'n' => keys::N,
        'o' => keys::O,
        'p' => keys::P,
        'q' => keys::Q,
        'r' => keys::R,
        's' => keys::S,
        't' => keys::T,
        'u' => keys::U,
        'v' => keys::V,
        'w' => keys::W,
        'x' => keys::X,
        'y' => keys::Y,
        'z' => keys::Z,
        '0' => keys::N0,
        '1' => keys::N1,
        '2' => keys::N2,
        '3' => keys::N3,
        '4' => keys::N4,
        '5' => keys::N5,
        '6' => keys::N6,
        '7' => keys::N7,
        '8' => keys::N8,
        '9' => keys::N9,
        '<' => keys::DELETE,
        ' ' => keys::SPACE,
        _ => 255,
    }
}

/// Type a string on a virtual screen, applying each edit the engine returns.
fn type_word(e: &mut Engine, input: &str) -> String {
    let mut screen: Vec<char> = Vec::new();
    for c in input.chars() {
        let key = char_to_key(c);
        if key == keys::DELETE {
            screen.pop();
            e.on_key(key, false, false);
            continue;
        }
        let caps = c.is_uppercase();
        let r = e.on_key(key, caps, false);
        if r.action == Action::Send {
            for _ in 0..r.backspace {
                screen.pop();
            }
            for ch in r.chars {
                screen.push(ch);
            }
        } else if key == keys::SPACE {
            // fall through: the break character itself is inserted below
        } else if key <= keys::N9 {
            screen.push(if caps { c.to_ascii_uppercase() } else { c.to_ascii_lowercase() });
        }
        if key == keys::SPACE {
            screen.push(' ');
        }
    }
    screen.into_iter().collect()
}

fn run_telex(cases: &[(&str, &str)]) {
    for (input, expected) in cases {
        let mut e = Engine::new();
        let result = type_word(&mut e, input);
        assert_eq!(result, *expected, "telex input {:?}", input);
    }
}

fn run_vni(cases: &[(&str, &str)]) {
    for (input, expected) in cases {
        let mut e = Engine::new();
        e.set_method(1);
        let result = type_word(&mut e, input);
        assert_eq!(result, *expected, "vni input {:?}", input);
    }
}

fn test_telex(input: &str, expected: &str) {
    run_telex(&[(input, expected)]);
}

fn test_vni(input: &str, expected: &str) {
    run_vni(&[(input, expected)]);
}


#[test]
fn test_telex_basic() {
    run_telex(&[
        ("as", "á"),
        ("af", "à"),
        ("ar", "ả"),
        ("ax", "ã"),
        ("aj", "ạ"),
        ("aa", "â"),
        ("aw", "ă"),
        ("ee", "ê"),
        ("oo", "ô"),
        ("ow", "ơ"),
        ("uw", "ư"),
        ("dd", "đ"),
    ]);
}

#[test]
fn test_vni_basic() {
    run_vni(&[
        ("a1", "á"),
        ("a2", "à"),
        ("a3", "ả"),
        ("a4", "ã"),
        ("a5", "ạ"),
        ("a6", "â"),
        ("a8", "ă"),
        ("e6", "ê"),
        ("o6", "ô"),
        ("o7", "ơ"),
        ("u7", "ư"),
        ("d9", "đ"),
    ]);
}

#[test]
fn test_telex_compound() {
    run_telex(&[("duocw", "dươc"), ("nguoiw", "ngươi"), ("tuoiws", "tưới")]);
}
