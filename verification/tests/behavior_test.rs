use gonhanh_core::data::keys;
use gonhanh_core::engine::{Action, Engine};

fn char_to_key(c: char) -> u16 {
    match c.to_ascii_lowercase() {
        'a' => keys::A,
        'b' => keys::B,
        'c' => keys::C,
        'd' => keys::D,
        'e' => keys::E,
        'f' => keys::F,
        'g' => keys::G,
        'h' => keys::H,
        'i' => keys::I,
        'j' => keys::J,
        'k' => keys::K,
        'l' => keys::L,
        'm' => keys::M,
        'n' => keys::N,
        'o' => keys::O,
        'p' => keys::P,
        'q' => keys::Q,
        'r' => keys::R,
        's' => keys::S,
        't' => keys::T,
        'u' => keys::U,
        'v' => keys::V,
        'w' => keys::W,
        'x' => keys::X,
        'y' => keys::Y,
        'z' => keys::Z,
        '0' => keys::N0,
        '1' => keys::N1,
        '2' => keys::N2,
        '3' => keys::N3,
        '4' => keys::N4,
        '5' => keys::N5,
        '6' => keys::N6,
        '7' => keys::N7,
        '8' => keys::N8,
        '9' => keys::N9,
        '<' => keys::DELETE,
        ' ' => keys::SPACE,
        _ => 255,
    }
}

/// Type a string on a virtual screen, applying each edit the engine returns.
fn type_word(e: &mut Engine, input: &str) -> String {
    let mut screen: Vec<char> = Vec::new();
    for c in input.chars() {
        let key = char_to_key(c);
        if key == keys::DELETE {
            screen.pop();
            e.on_key(key, false, false);
            continue;
        }
        let caps = c.is_uppercase();
        let r = e.on_key(key, caps, false);
        if r.action == Action::Send {
            for _ in 0..r.backspace {
                screen.pop();
            }
            for ch in r.chars {
                screen.push(ch);
            }
        } else if key == keys::SPACE {
            // fall through: the break character itself is inserted below
        } else if key <= keys::N9 {
            screen.push(if caps { c.to_ascii_uppercase() } else { c.to_ascii_lowercase() });
        }
        if key == keys::SPACE {
            screen.push(' ');
        }
    }
    screen.into_iter().collect()
}

fn run_telex(cases: &[(&str, &str)]) {
    for (input, expected) in cases {
        let mut e = Engine::new();
        let result = type_word(&mut e, input);
        assert_eq!(result, *expected, "telex input {:?}", input);
    }
}

fn run_vni(cases: &[(&str, &str)]) {
    for (input, expected) in cases {
        let mut e = Engine::new();
        e.set_method(1);
        let result = type_word(&mut e, input);
        assert_eq!(result, *expected, "vni input {:?}", input);
    }
}

fn test_telex(input: &str, expected: &str) {
    run_telex(&[(input, expected)]);
}

fn test_vni(input: &str, expected: &str) {
    run_vni(&[(input, expected)]);
}


#[test]
fn telex_backspace_mid_word() {
    test_telex("toi<as", "toá");
}

#[test]
fn telex_wrong_order_mark_before_vowel() {
    test_telex("sa", "sa");
    test_telex("as", "á");
}

#[test]
fn telex_double_mark() {
    test_telex("ass", "as");
    test_telex("aff", "af");
    test_telex("arr", "ar");
}

#[test]
fn telex_double_tone() {
    test_telex("aaa", "aa");
    test_telex("ooo", "oo");
    test_telex("aww", "aw");
}

#[test]
fn telex_tone_then_mark() {
    test_telex("aas", "ấ");
    test_telex("ees", "ế");
    test_telex("oos", "ố");
}

#[test]
fn telex_mark_then_tone() {
    test_telex("asa", "ấ");
    test_telex("oso", "ố");
}

#[test]
fn vni_common_words() {
    test_vni("vie65t", "việt");
    test_vni("d9u7o7c5", "được");
}

#[test]
fn telex_only_consonants() {
    test_telex("bcd", "bcd");
    test_telex("xyz", "xyz");
}

#[test]
fn telex_mark_without_vowel() {
    test_telex("bs", "bs");
    test_telex("ts", "ts");
}

#[test]
fn telex_empty_after_backspace() {
    test_telex("a<b", "b");
    test_telex("ab<<cd", "cd");
}

#[test]
fn telex_word_boundary() {
    test_telex("xin", "xin");
    test_telex("chaof", "chào");
}

#[test]
fn vni_all_caps() {
    test_vni("VIE65T", "VIỆT");
    test_vni("D9U7O7NG2", "ĐƯỜNG");
}

#[test]
fn vni_rapid_typing() {
    test_vni("ngu7o72i2", "người");
    test_vni("to6i1", "tối");
}

#[test]
fn vni_mixed_case_sentences() {
    run_vni(&[
        ("Xin cha2o", "Xin chào"),
        ("Vie65t Nam", "Việt Nam"),
        ("Tha2nh pho61 Ho62 Chi1 Minh", "Thành phố Hồ Chí Minh"),
    ]);
}

#[test]
fn backspace_then_retype() {
    // backspace drops the newest buffer record; typing goes on from there.
    // Note the second case: the Telex s key carries the acute mark, so
    // retyping it after a backspace yields the acute form.
    test_telex("chaof<o", "chào");
    test_telex("vieet<s", "viế");
    test_telex("abcd<<<", "a");
}
