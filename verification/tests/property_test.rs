use gonhanh_core::data::keys;
use gonhanh_core::engine::{Action, Engine};

fn char_to_key(c: char) -> u16 {
    match c.to_ascii_lowercase() {
        'a' => keys::A,
        'b' => keys::B,
        'c' => keys::C,
        'd' => keys::D,
        'e' => keys::E,
        'f' => keys::F,
        'g' => keys::G,
        'h' => keys::H,
        'i' => keys::I,
        'j' => keys::J,
        'k' => keys::K,
        'l' => keys::L,
        'm' => keys::M,
        'n' => keys::N,
        'o' => keys::O,
        'p' => keys::P,
        'q' => keys::Q,
        'r' => keys::R,
        's' => keys::S,
        't' => keys::T,
        'u' => keys::U,
        'v' => keys::V,
        'w' => keys::W,
        'x' => keys::X,
        'y' => keys::Y,
        'z' => keys::Z,
        '0' => keys::N0,
        '1' => keys::N1,
        '2' => keys::N2,
        '3' => keys::N3,
        '4' => keys::N4,
        '5' => keys::N5,
        '6' => keys::N6,
        '7' => keys::N7,
        '8' => keys::N8,
        '9' => keys::N9,
        '<' => keys::DELETE,
        ' ' => keys::SPACE,
        _ => 255,
    }
}

/// Type a string on a virtual screen, applying each edit the engine returns.
fn type_word(e: &mut Engine, input: &str) -> String {
    let mut screen: Vec<char> = Vec::new();
    for c in input.chars() {
        let key = char_to_key(c);
        if key == keys::DELETE {
            screen.pop();
            e.on_key(key, false, false);
            continue;
        }
        let caps = c.is_uppercase();
        let r = e.on_key(key, caps, false);
        if r.action == Action::Send {
            for _ in 0..r.backspace {
                screen.pop();
            }
            for ch in r.chars {
                screen.push(ch);
            }
        } else if key == keys::SPACE {
            // fall through: the break character itself is inserted below
        } else if key <= keys::N9 {
            screen.push(if caps { c.to_ascii_uppercase() } else { c.to_ascii_lowercase() });
        }
        if key == keys::SPACE {
            screen.push(' ');
        }
    }
    screen.into_iter().collect()
}

fn run_telex(cases: &[(&str, &str)]) {
    for (input, expected) in cases {
        let mut e = Engine::new();
        let result = type_word(&mut e, input);
        assert_eq!(result, *expected, "telex input {:?}", input);
    }
}

fn run_vni(cases: &[(&str, &str)]) {
    for (input, expected) in cases {
        let mut e = Engine::new();
        e.set_method(1);
        let result = type_word(&mut e, input);
        assert_eq!(result, *expected, "vni input {:?}", input);
    }
}

fn test_telex(input: &str, expected: &str) {
    run_telex(&[(input, expected)]);
}

fn test_vni(input: &str, expected: &str) {
    run_vni(&[(input, expected)]);
}



#[test]
fn scenario_sentences() {
    run_telex(&[
        ("xin chaof", "xin chào"),
        ("dduwowcj", "được"),
        ("VIEETJ NAM", "VIỆT NAM"),
        ("ass ", "as "),
        ("class ", "class "),
        ("ww", "ww"),
    ]);
    run_vni(&[("a1", "á"), ("o7", "ơ")]);
}

#[test]
fn tone_placement_follows_the_mode() {
    let mut e = Engine::new();
    assert_eq!(type_word(&mut e, "hoas"), "hoá");
    let mut e = Engine::new();
    e.set_modern_tone(false);
    assert_eq!(type_word(&mut e, "hoas"), "hóa");
}

#[test]
fn pre_vowel_stroke_skips_the_validator() {
    // dd composes before any vowel is typed
    test_telex("dd", "đ");
    test_telex("ddi", "đi");
}

#[test]
fn post_vowel_stroke_needs_a_valid_word() {
    // "di" is valid, so the late second d strikes the first
    test_telex("did", "đi");
    // "ad" is no Vietnamese prefix: the second d stays a plain letter
    test_telex("add", "add");
}

#[test]
fn qu_and_gi_initials_give_up_the_mark() {
    // the u of qu- and the i of gi- never take the mark themselves
    test_telex("quas", "quá");
    test_telex("quys", "quý");
    test_telex("gias", "giá");
    // as the only vowel they still take it
    test_telex("gif", "gì");
}

#[test]
fn remove_key_clears_one_level() {
    // first the mark, then the tone modifier
    test_telex("aasz", "â");
    test_telex("aaszz", "a");
    test_telex("asz", "a");
    test_telex("aszs", "á");
    test_vni("a650", "â");
    test_vni("a6500", "a");
}

#[test]
fn disable_then_enable_resets_to_a_fresh_engine() {
    let mut e = Engine::new();
    type_word(&mut e, "vieet");
    e.set_enabled(false);
    e.set_enabled(true);
    let after_reset = type_word(&mut e, "vieets");
    let mut fresh = Engine::new();
    let from_fresh = type_word(&mut fresh, "vieets");
    assert_eq!(after_reset, from_fresh);
}

#[test]
fn disabled_engine_passes_keys_through() {
    let mut e = Engine::new();
    e.set_enabled(false);
    assert_eq!(type_word(&mut e, "as"), "as");
}

#[test]
fn control_key_clears_the_word() {
    let mut e = Engine::new();
    type_word(&mut e, "vieet");
    let r = e.on_key(keys::A, false, true);
    assert_eq!(r.action, Action::Pass);
    // the next word starts from scratch
    assert_eq!(type_word(&mut e, "as"), "á");
}

#[test]
fn buffer_capacity_is_bounded() {
    let mut e = Engine::new();
    let long: String = "n".repeat(24);
    let out = type_word(&mut e, &long);
    assert_eq!(out, long);
}

#[test]
fn shortcut_expands_on_word_boundary() {
    let mut e = Engine::new();
    let trigger: Vec<char> = "btw".chars().collect();
    let output: Vec<char> = "by the way".chars().collect();
    e.shortcuts_mut().add(2, trigger, output);
    assert_eq!(type_word(&mut e, "btw "), "by the way ");
    // other words stay as typed
    assert_eq!(type_word(&mut e, "but "), "but ");
}

#[test]
fn removed_shortcut_no_longer_fires() {
    let mut e = Engine::new();
    let id = e.shortcuts_mut().add(2, "vn".chars().collect(), "Vietnam".chars().collect());
    assert_eq!(type_word(&mut e, "vn "), "Vietnam ");
    assert!(e.shortcuts_mut().remove(id));
    assert!(!e.shortcuts_mut().remove(id));
    assert_eq!(type_word(&mut e, "vn "), "vn ");
}

#[test]
fn shortcut_respects_the_method() {
    let mut e = Engine::new();
    e.shortcuts_mut().add(1, "tm".chars().collect(), "for vni".chars().collect());
    assert_eq!(type_word(&mut e, "tm "), "tm ");
    e.set_method(1);
    assert_eq!(type_word(&mut e, "tm "), "for vni ");
}

#[test]
fn random_letters_never_break_the_engine() {
    // letters a..z and spaces in a fixed pseudo-random order; the engine
    // must never ask to delete more than it has put on screen
    let mut seed: u64 = 0x2545F4914F6CDD1D;
    for trial in 0..300 {
        let mut e = Engine::new();
        if trial % 2 == 1 {
            e.set_method(1);
        }
        e.set_modern_tone(trial % 3 != 0);
        let mut inserted: usize = 0;
        for _ in 0..80 {
            seed = seed.wrapping_mul(6364136223846793005).wrapping_add(1442695040888963407);
            let pick = (seed >> 33) % 27;
            if pick == 26 {
                e.on_key(keys::SPACE, false, false);
                inserted = 0;
                continue;
            }
            let key = pick as u16;
            let r = e.on_key(key, (seed >> 17) % 5 == 0, false);
            if r.action == Action::Send {
                assert!((r.backspace as usize) <= inserted, "backspace beyond screen");
                inserted = inserted - r.backspace as usize + r.chars.len();
            } else {
                inserted += 1;
            }
        }
    }
}

#[test]
fn dictionary_words_compose_correctly() {
    // valid Telex syllables, traditional placement
    let cases = [
        ("vieetj", "việt"),
        ("nam", "nam"),
        ("nguwowif", "người"),
        ("khoong", "không"),
        ("ddaats", "đất"),
        ("nuwowcs", "nước"),
        ("tieengs", "tiếng"),
        ("hocj", "học"),
        ("truwowngf", "trường"),
        ("thaayf", "thầy"),
        ("coo", "cô"),
        ("chuws", "chứ"),
        ("quas", "quá"),
        ("quys", "quý"),
        ("gif", "gì"),
        ("gias", "giá"),
        ("hoa", "hoa"),
        ("hoas", "hóa"),
        ("khuya", "khuya"),
        ("chuyeenj", "chuyện"),
        ("ddoongf", "đồng"),
        ("soong", "sông"),
        ("bieenr", "biển"),
        ("yeeu", "yêu"),
        ("thuwowng", "thương"),
        ("nhows", "nhớ"),
        ("buoonf", "buồn"),
        ("vui", "vui"),
        ("ddepj", "đẹp"),
        ("kys", "ký"),
        ("kinh", "kinh"),
        ("nghe", "nghe"),
    ];
    for (input, expected) in cases {
        let mut e = Engine::new();
        e.set_modern_tone(false);
        let typed = format!("{} ", input);
        let want = format!("{} ", expected);
        assert_eq!(type_word(&mut e, &typed), want, "word {:?}", input);
    }
}

#[test]
fn w_alone_becomes_u_horn() {
    test_telex("w", "ư");
    test_telex("nhw", "như");
    // k cannot stand before u-horn, so w stays a letter
    test_telex("kw", "kw");
}

#[test]
fn gi_onset_words_compose() {
    // the gi digraph acts as an onset: its i does not block the nucleus
    let cases = [
        ("gios ", "gió "),
        ("giori ", "giỏi "),
        ("gieo ", "gieo "),
        ("giuwowngf ", "giường "),
        ("gias ", "giá "),
        ("gif ", "gì "),
    ];
    for (input, expected) in cases {
        let mut e = Engine::new();
        e.set_modern_tone(false);
        assert_eq!(type_word(&mut e, input), expected, "word {:?}", input);
    }
}

#[test]
fn long_shortcut_output_is_cut_to_capacity() {
    // an edit inserts at most sixteen characters, like the fixed host buffer
    let mut e = Engine::new();
    let long: Vec<char> = "abcdefghijklmnopqrst".chars().collect();
    e.shortcuts_mut().add(2, "xx".chars().collect(), long);
    assert_eq!(type_word(&mut e, "xx "), "abcdefghijklmnop ");
}
