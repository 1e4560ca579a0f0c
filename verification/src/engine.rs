//! The transformation engine.
//!
//! [`Engine::on_key`] is the host's entry point: for every key event it
//! mutates the keystroke buffer and returns a [`Result`] telling the host
//! how many trailing characters to delete and what to insert instead.  The
//! pipeline tries, in order: the stroke transform, a tone modifier, a tone
//! mark, the remove key, and (Telex only) `w` as the vowel u-horn; a key
//! that fires no transform is a plain letter.  Pressing the same modifier
//! key twice in a row reverts the transform and leaves the literal key.

pub mod buffer;
pub mod shortcut;
pub mod validation;

use vstd::prelude::*;

use crate::data::chars;
use crate::data::chars::{MARK_NONE, TONE_HORN, TONE_NONE};
use crate::data::keys;
use crate::data::vowel;
use crate::data::vowel::Vowel;
use crate::input;
use buffer::{buf_wf, char_wf, lemma_mark_count_at, lemma_mark_count_nonneg,
    lemma_mark_count_pointwise, lemma_mark_count_push, lemma_mark_count_two,
    lemma_mark_count_update, lemma_mark_count_zero, mark_count, Buffer, Char, MAX};
use shortcut::{first_match_index, ShortcutTable};
use validation::{is_valid, spec_valid};

verus! {

/// What kind of edit the host must perform.
#[derive(Clone, Copy, Debug, PartialEq, Eq, Structural)]
pub enum Action {
    /// No edit: the host treats the key as ordinary input.
    Pass,
    /// Delete `backspace` trailing characters, then insert `chars`.
    Send,
    /// Reserved for restoring a word on a boundary.
    Restore,
}

/// The edit returned by [`Engine::on_key`].
pub struct Result {
    pub action: Action,
    /// Number of trailing characters the host deletes.
    pub backspace: u8,
    /// The characters the host inserts afterwards.
    pub chars: Vec<char>,
}

impl Result {
    /// No edit.
    pub fn none() -> (r: Result)
        ensures
            r.action == Action::Pass,
            r.backspace == 0,
            r.chars@ == Seq::<char>::empty(),
    {
        Result { action: Action::Pass, backspace: 0, chars: Vec::new() }
    }

    /// An edit that deletes `backspace` characters and inserts `chars`.
    /// The insert text is cut to `MAX` characters, as the fixed-size host
    /// buffer demands; the excess is dropped, never a panic.
    pub fn send(backspace: u8, chars: Vec<char>) -> (r: Result)
        ensures
            r.action == Action::Send,
            r.backspace == backspace,
            r.chars@ == capped_chars(chars@),
            r.chars@.len() <= MAX,
    {
        let ghost orig = chars@;
        let mut chars = chars;
        if chars.len() > MAX {
            chars.truncate(MAX);
            proof {
                assert(chars@ =~= capped_chars(orig));
            }
        }
        Result { action: Action::Send, backspace, chars }
    }
}

/// The transform recorded for revert detection: pressing the same modifier
/// key again undoes it.
#[derive(Clone, Copy, Debug, PartialEq, Eq, Structural)]
pub enum Transform {
    /// A tone mark was applied by `key`.
    Mark(u16, u8),
    /// A tone modifier was applied by `key`.
    Tone(u16, u8),
    /// The stroke was applied by `key`.
    Stroke(u16),
    /// A Telex `w` was taken as the vowel u-horn.
    WAsVowel,
}

/// The raw character a key displays as, ignoring annotations.
pub open spec fn spec_key_char(key: u16, caps: bool) -> Option<char> {
    if key == keys::A { Some(if caps { 'A' } else { 'a' }) }
    else if key == keys::B { Some(if caps { 'B' } else { 'b' }) }
    else if key == keys::C { Some(if caps { 'C' } else { 'c' }) }
    else if key == keys::D { Some(if caps { 'D' } else { 'd' }) }
    else if key == keys::E { Some(if caps { 'E' } else { 'e' }) }
    else if key == keys::F { Some(if caps { 'F' } else { 'f' }) }
    else if key == keys::G { Some(if caps { 'G' } else { 'g' }) }
    else if key == keys::H { Some(if caps { 'H' } else { 'h' }) }
    else if key == keys::I { Some(if caps { 'I' } else { 'i' }) }
    else if key == keys::J { Some(if caps { 'J' } else { 'j' }) }
    else if key == keys::K { Some(if caps { 'K' } else { 'k' }) }
    else if key == keys::L { Some(if caps { 'L' } else { 'l' }) }
    else if key == keys::M { Some(if caps { 'M' } else { 'm' }) }
    else if key == keys::N { Some(if caps { 'N' } else { 'n' }) }
    else if key == keys::O { Some(if caps { 'O' } else { 'o' }) }
    else if key == keys::P { Some(if caps { 'P' } else { 'p' }) }
    else if key == keys::Q { Some(if caps { 'Q' } else { 'q' }) }
    else if key == keys::R { Some(if caps { 'R' } else { 'r' }) }
    else if key == keys::S { Some(if caps { 'S' } else { 's' }) }
    else if key == keys::T { Some(if caps { 'T' } else { 't' }) }
    else if key == keys::U { Some(if caps { 'U' } else { 'u' }) }
    else if key == keys::V { Some(if caps { 'V' } else { 'v' }) }
    else if key == keys::W { Some(if caps { 'W' } else { 'w' }) }
    else if key == keys::X { Some(if caps { 'X' } else { 'x' }) }
    else if key == keys::Y { Some(if caps { 'Y' } else { 'y' }) }
    else if key == keys::Z { Some(if caps { 'Z' } else { 'z' }) }
    else if key == keys::N0 { Some('0') }
    else if key == keys::N1 { Some('1') }
    else if key == keys::N2 { Some('2') }
    else if key == keys::N3 { Some('3') }
    else if key == keys::N4 { Some('4') }
    else if key == keys::N5 { Some('5') }
    else if key == keys::N6 { Some('6') }
    else if key == keys::N7 { Some('7') }
    else if key == keys::N8 { Some('8') }
    else if key == keys::N9 { Some('9') }
    else { None }
}

/// Convert a key code to its raw character.
pub fn key_to_char(key: u16, caps: bool) -> (r: Option<char>)
    ensures
        r == spec_key_char(key, caps),
{
    if key == keys::A { Some(if caps { 'A' } else { 'a' }) }
    else if key == keys::B { Some(if caps { 'B' } else { 'b' }) }
    else if key == keys::C { Some(if caps { 'C' } else { 'c' }) }
    else if key == keys::D { Some(if caps { 'D' } else { 'd' }) }
    else if key == keys::E { Some(if caps { 'E' } else { 'e' }) }
    else if key == keys::F { Some(if caps { 'F' } else { 'f' }) }
    else if key == keys::G { Some(if caps { 'G' } else { 'g' }) }
    else if key == keys::H { Some(if caps { 'H' } else { 'h' }) }
    else if key == keys::I { Some(if caps { 'I' } else { 'i' }) }
    else if key == keys::J { Some(if caps { 'J' } else { 'j' }) }
    else if key == keys::K { Some(if caps { 'K' } else { 'k' }) }
    else if key == keys::L { Some(if caps { 'L' } else { 'l' }) }
    else if key == keys::M { Some(if caps { 'M' } else { 'm' }) }
    else if key == keys::N { Some(if caps { 'N' } else { 'n' }) }
    else if key == keys::O { Some(if caps { 'O' } else { 'o' }) }
    else if key == keys::P { Some(if caps { 'P' } else { 'p' }) }
    else if key == keys::Q { Some(if caps { 'Q' } else { 'q' }) }
    else if key == keys::R { Some(if caps { 'R' } else { 'r' }) }
    else if key == keys::S { Some(if caps { 'S' } else { 's' }) }
    else if key == keys::T { Some(if caps { 'T' } else { 't' }) }
    else if key == keys::U { Some(if caps { 'U' } else { 'u' }) }
    else if key == keys::V { Some(if caps { 'V' } else { 'v' }) }
    else if key == keys::W { Some(if caps { 'W' } else { 'w' }) }
    else if key == keys::X { Some(if caps { 'X' } else { 'x' }) }
    else if key == keys::Y { Some(if caps { 'Y' } else { 'y' }) }
    else if key == keys::Z { Some(if caps { 'Z' } else { 'z' }) }
    else if key == keys::N0 { Some('0') }
    else if key == keys::N1 { Some('1') }
    else if key == keys::N2 { Some('2') }
    else if key == keys::N3 { Some('3') }
    else if key == keys::N4 { Some('4') }
    else if key == keys::N5 { Some('5') }
    else if key == keys::N6 { Some('6') }
    else if key == keys::N7 { Some('7') }
    else if key == keys::N8 { Some('8') }
    else if key == keys::N9 { Some('9') }
    else { None }
}

/// The keys of a buffer, in order.
pub open spec fn keys_of(s: Seq<Char>) -> Seq<u16> {
    s.map_values(|c: Char| c.key)
}

/// Whether any record is a vowel.
pub open spec fn spec_has_vowel(s: Seq<Char>) -> bool {
    exists|i: int| 0 <= i < s.len() && keys::spec_is_vowel(#[trigger] s[i].key)
}

/// The character a record displays as: the stroked d, a composed vowel, or
/// the raw letter.
pub open spec fn spec_composed(c: Char) -> char {
    if c.key == keys::D && c.stroke {
        chars::spec_get_d(c.caps)
    } else {
        match chars::spec_to_char(c.key, c.caps, c.tone, c.mark) {
            Some(ch) => ch,
            None => match spec_key_char(c.key, c.caps) {
                Some(ch) => ch,
                None => '?',
            },
        }
    }
}

/// The raw face-value character of a record.
pub open spec fn spec_raw_char(c: Char) -> char {
    match spec_key_char(c.key, c.caps) {
        Some(ch) => ch,
        None => '?',
    }
}

/// The composed characters of the records from `from` to the end.
pub open spec fn composed_from(s: Seq<Char>, from: int) -> Seq<char> {
    s.subrange(from, s.len() as int).map_values(|c: Char| spec_composed(c))
}

/// The insert text of a result, cut to the fixed capacity: a host buffer of
/// `MAX` slots takes at most `MAX` characters per edit.
pub open spec fn capped_chars(s: Seq<char>) -> Seq<char> {
    if s.len() <= MAX {
        s
    } else {
        s.take(MAX as int)
    }
}

/// The raw word held by the buffer, with case.
pub open spec fn raw_of(s: Seq<Char>) -> Seq<char> {
    s.map_values(|c: Char| spec_raw_char(c))
}

/// Whether `l` records a tone transform by `key` (so `key` now reverts).
pub open spec fn spec_tone_revert(l: Option<Transform>, key: u16) -> bool {
    match l {
        Some(Transform::Tone(k, _)) => k == key,
        _ => false,
    }
}

/// Whether `l` records a mark transform by `key`.
pub open spec fn spec_mark_revert(l: Option<Transform>, key: u16) -> bool {
    match l {
        Some(Transform::Mark(k, _)) => k == key,
        _ => false,
    }
}

/// Whether `l` records a stroke transform by `key`.
pub open spec fn spec_stroke_revert(l: Option<Transform>, key: u16) -> bool {
    match l {
        Some(Transform::Stroke(k)) => k == key,
        _ => false,
    }
}

/// A recorded transform that the current keystroke could have produced:
/// the last-transform marker always matches the key and table value that set
/// it.
pub open spec fn transform_of_key(method: u8, key: u16, t: Transform) -> bool {
    match t {
        Transform::Stroke(k) => k == key && input::spec_stroke_key(method, key),
        Transform::Tone(k, v) => k == key && v == input::spec_tone_value(method, key) && v
            != TONE_NONE,
        Transform::Mark(k, v) => k == key && v == input::spec_mark_value(method, key) && v
            != MARK_NONE,
        Transform::WAsVowel => method == input::TELEX && key == keys::W,
    }
}

/// Index of the first un-stroked `D` at or after `i`, or -1.
pub open spec fn first_unstroked_d_from(s: Seq<Char>, i: int) -> int
    decreases s.len() - i,
{
    if i < 0 || i >= s.len() {
        -1
    } else if s[i].key == keys::D && !s[i].stroke {
        i
    } else {
        first_unstroked_d_from(s, i + 1)
    }
}

/// Index of the first stroked `D` at or after `i`, or -1.
pub open spec fn first_stroked_d_from(s: Seq<Char>, i: int) -> int
    decreases s.len() - i,
{
    if i < 0 || i >= s.len() {
        -1
    } else if s[i].key == keys::D && s[i].stroke {
        i
    } else {
        first_stroked_d_from(s, i + 1)
    }
}

/// Index of the first marked record at or after `i`, or -1.
pub open spec fn first_marked_from(s: Seq<Char>, i: int) -> int
    decreases s.len() - i,
{
    if i < 0 || i >= s.len() {
        -1
    } else if s[i].mark != MARK_NONE {
        i
    } else {
        first_marked_from(s, i + 1)
    }
}

/// Index of the rightmost vowel carrying a tone modifier, or -1.
pub open spec fn last_toned(s: Seq<Char>) -> int
    decreases s.len(),
{
    if s.len() == 0 {
        -1
    } else if keys::spec_is_vowel(s.last().key) && s.last().tone != TONE_NONE {
        s.len() - 1
    } else {
        last_toned(s.drop_last())
    }
}

/// Index of the rightmost vowel carrying a mark, or -1.
pub open spec fn last_marked(s: Seq<Char>) -> int
    decreases s.len(),
{
    if s.len() == 0 {
        -1
    } else if keys::spec_is_vowel(s.last().key) && s.last().mark != MARK_NONE {
        s.len() - 1
    } else {
        last_marked(s.drop_last())
    }
}

/// The vowels of the buffer from `i` on, with their positions.
pub open spec fn spec_vowels_from(s: Seq<Char>, i: int) -> Seq<Vowel>
    decreases s.len() - i,
{
    if i < 0 || i >= s.len() {
        Seq::empty()
    } else if keys::spec_is_vowel(s[i].key) {
        seq![Vowel { key: s[i].key, tone: s[i].tone, pos: i as usize }].add(
            spec_vowels_from(s, i + 1),
        )
    } else {
        spec_vowels_from(s, i + 1)
    }
}

/// The vowels of the buffer, with their positions.
pub open spec fn spec_vowels(s: Seq<Char>) -> Seq<Vowel> {
    spec_vowels_from(s, 0)
}

/// Adjacent `u`-`o` or `o`-`u` records, for the horn that spreads over both.
pub open spec fn spec_has_uo_adjacent(s: Seq<Char>) -> bool {
    exists|i: int|
        0 <= i && i + 1 < s.len() && (((#[trigger] s[i]).key == keys::U && s[i + 1].key
            == keys::O) || (s[i].key == keys::O && s[i + 1].key == keys::U))
}

/// A final consonant stands somewhere after position `after`.
pub open spec fn spec_has_final(s: Seq<Char>, after: int) -> bool {
    exists|i: int| after < i < s.len() && keys::spec_is_consonant(#[trigger] s[i].key)
}

/// The syllable starts with `qu`.
pub open spec fn spec_has_qu(s: Seq<Char>) -> bool {
    s.len() >= 2 && s[0].key == keys::Q && s[1].key == keys::U
}

/// The syllable starts with `gi`.
pub open spec fn spec_has_gi(s: Seq<Char>) -> bool {
    s.len() >= 2 && s[0].key == keys::G && s[1].key == keys::I
}

/// The horn value written over every untoned `u` and `o`.
pub open spec fn spec_spread_horn(s: Seq<Char>, tval: u8) -> Seq<Char> {
    s.map(
        |i: int, c: Char|
            if (c.key == keys::U || c.key == keys::O) && c.tone == TONE_NONE {
                Char { tone: tval, ..c }
            } else {
                c
            },
    )
}

/// Index of the first untoned `u` or `o` at or after `i`, or -1.
pub open spec fn first_horn_target_from(s: Seq<Char>, i: int) -> int
    decreases s.len() - i,
{
    if i < 0 || i >= s.len() {
        -1
    } else if (s[i].key == keys::U || s[i].key == keys::O) && s[i].tone == TONE_NONE {
        i
    } else {
        first_horn_target_from(s, i + 1)
    }
}

/// Index of the rightmost vowel in the tone key's target set that carries
/// no modifier yet, or -1.
pub open spec fn last_eligible(s: Seq<Char>, method: u8, key: u16) -> int
    decreases s.len(),
{
    if s.len() == 0 {
        -1
    } else if keys::spec_is_vowel(s.last().key) && input::spec_tone_target(
        method,
        key,
        s.last().key,
    ) && s.last().tone == TONE_NONE {
        s.len() - 1
    } else {
        last_eligible(s.drop_last(), method, key)
    }
}

pub proof fn lemma_last_eligible_bounds(s: Seq<Char>, method: u8, key: u16)
    ensures
        -1 <= last_eligible(s, method, key) < s.len(),
        last_eligible(s, method, key) >= 0 ==> {
            let e = last_eligible(s, method, key);
            keys::spec_is_vowel(s[e].key) && input::spec_tone_target(method, key, s[e].key)
                && s[e].tone == TONE_NONE
        },
    decreases s.len(),
{
    if s.len() > 0 && !(keys::spec_is_vowel(s.last().key) && input::spec_tone_target(
        method,
        key,
        s.last().key,
    ) && s.last().tone == TONE_NONE) {
        lemma_last_eligible_bounds(s.drop_last(), method, key);
    }
}

/// Records beyond `m` that are not eligible do not move the rightmost
/// eligible index.
proof fn lemma_last_eligible_suffix(s: Seq<Char>, method: u8, key: u16, m: int)
    requires
        0 <= m <= s.len(),
        forall|k: int|
            m <= k < s.len() ==> !(keys::spec_is_vowel((#[trigger] s[k]).key)
                && input::spec_tone_target(method, key, s[k].key) && s[k].tone == TONE_NONE),
    ensures
        last_eligible(s, method, key) == last_eligible(s.take(m), method, key),
    decreases s.len() - m,
{
    if m < s.len() {
        assert(s.drop_last() =~= s.take(s.len() - 1));
        lemma_last_eligible_suffix(s.take(s.len() - 1), method, key, m);
        assert(s.take(s.len() - 1).take(m) =~= s.take(m));
    } else {
        assert(s.take(m) =~= s);
    }
}

/// Whether the horn spreads over a `u`-`o` pair: a horn key, an adjacent
/// pair, and at least one untoned `u` or `o` to receive it.
pub open spec fn spec_horn_spreads(s: Seq<Char>, method: u8, key: u16) -> bool {
    input::spec_tone_is_horn(method, key) && spec_has_uo_adjacent(s) && first_horn_target_from(
        s,
        0,
    ) >= 0
}

/// The buffer right after a successful tone transform, before the mark is
/// repositioned: either the horn spread over the pair, or the single
/// rightmost eligible vowel took the value.
pub open spec fn tone_applied(s: Seq<Char>, method: u8, key: u16) -> Seq<Char> {
    let tval = input::spec_tone_value(method, key);
    if spec_horn_spreads(s, method, key) {
        spec_spread_horn(s, tval)
    } else {
        let e = last_eligible(s, method, key);
        s.update(e, (Char { tone: tval, ..s[e] }))
    }
}

/// The earliest position a successful tone transform changes.
pub open spec fn tone_change_start(s: Seq<Char>, method: u8, key: u16) -> int {
    if spec_horn_spreads(s, method, key) {
        first_horn_target_from(s, 0)
    } else {
        last_eligible(s, method, key)
    }
}

/// The buffer after the mark has moved to its recomputed position, when the
/// cluster change calls for it; otherwise unchanged.
pub open spec fn spec_reposition(s: Seq<Char>, modern: bool) -> Seq<Char> {
    let om = first_marked_from(s, 0);
    if om == -1 {
        s
    } else {
        let vs = spec_vowels(s);
        if vs.len() == 0 {
            s
        } else {
            let np = vowel::spec_find_tone_position(
                vs,
                spec_has_final(s, vs.last().pos as int),
                modern,
                spec_has_qu(s),
                spec_has_gi(s),
            );
            if np == om {
                s
            } else {
                s.update(om, (Char { mark: MARK_NONE, ..s[om] })).update(
                    np as int,
                    (Char { mark: s[om].mark, ..s[np as int] }),
                )
            }
        }
    }
}

/// Where the rebuild of a successful tone transform starts: the earliest
/// changed position, lowered to the mark's old position when repositioning
/// moved it further left.
pub open spec fn tone_rebuild_start(s: Seq<Char>, method: u8, key: u16, modern: bool) -> int {
    let e = tone_change_start(s, method, key);
    let mid = tone_applied(s, method, key);
    let om = first_marked_from(mid, 0);
    if spec_reposition(mid, modern) != mid && om < e {
        om
    } else {
        e
    }
}

/// Whether the stroke transform fires on this state: reverting needs a
/// stroked `d`; applying needs a plain `d` and, once a vowel stands in the
/// buffer, the validator's consent.
pub open spec fn stroke_applies(s: Seq<Char>, l: Option<Transform>, key: u16) -> bool {
    if spec_stroke_revert(l, key) {
        first_stroked_d_from(s, 0) >= 0
    } else {
        first_unstroked_d_from(s, 0) >= 0 && (!spec_has_vowel(s) || spec_valid(keys_of(s)))
    }
}

/// What a firing stroke transform does to the buffer, the marker and the
/// result.
pub open spec fn stroke_outcome(
    s: Seq<Char>,
    l: Option<Transform>,
    key: u16,
    s2: Seq<Char>,
    l2: Option<Transform>,
    r: Result,
) -> bool {
    if spec_stroke_revert(l, key) {
        let fs = first_stroked_d_from(s, 0);
        let cleared = s.update(fs, (Char { stroke: false, ..s[fs] }));
        &&& l2 is None
        &&& s2 == (if s.len() < MAX {
            cleared.push(
                (Char {
                    key,
                    caps: s[fs].caps,
                    tone: TONE_NONE,
                    mark: MARK_NONE,
                    stroke: false,
                }),
            )
        } else {
            cleared
        })
        &&& r.action == Action::Send
        &&& r.backspace as int == s.len() - fs
        &&& r.chars@ == capped_chars(composed_from(s2, fs))
    } else {
        let fu = first_unstroked_d_from(s, 0);
        &&& l2 == Some(Transform::Stroke(key))
        &&& s2 == s.update(fu, (Char { stroke: true, ..s[fu] }))
        &&& r.action == Action::Send
        &&& r.backspace as int == s.len() - fu
        &&& r.chars@ == composed_from(s2, fu)
    }
}

/// Whether the tone transform fires: reverting needs letters; applying
/// needs letters, a valid word and an eligible untoned target vowel.
pub open spec fn tone_applies(s: Seq<Char>, l: Option<Transform>, method: u8, key: u16) -> bool {
    if spec_tone_revert(l, key) {
        s.len() > 0
    } else {
        s.len() > 0 && spec_valid(keys_of(s)) && last_eligible(s, method, key) >= 0
    }
}

/// What a firing tone transform does.
pub open spec fn tone_outcome(
    s: Seq<Char>,
    l: Option<Transform>,
    method: u8,
    modern: bool,
    key: u16,
    caps: bool,
    s2: Seq<Char>,
    l2: Option<Transform>,
    r: Result,
) -> bool {
    if spec_tone_revert(l, key) {
        let lt = last_toned(s);
        if lt == -1 {
            &&& s2 == s
            &&& l2 is None
            &&& r.action == Action::Pass
            &&& r.backspace == 0
            &&& r.chars@.len() == 0
        } else {
            let cleared = s.update(lt, (Char { tone: TONE_NONE, ..s[lt] }));
            &&& l2 is None
            &&& s2 == (if s.len() < MAX {
                cleared.push(
                    (Char { key, caps, tone: TONE_NONE, mark: MARK_NONE, stroke: false }),
                )
            } else {
                cleared
            })
            &&& r.action == Action::Send
            &&& r.backspace as int == s.len() - lt
            &&& r.chars@ == capped_chars(composed_from(s2, lt))
        }
    } else {
        let tval = input::spec_tone_value(method, key);
        let rp = tone_rebuild_start(s, method, key, modern);
        &&& l2 == Some(Transform::Tone(key, tval))
        &&& s2 == spec_reposition(tone_applied(s, method, key), modern)
        &&& r.action == Action::Send
        &&& r.backspace as int == s.len() - rp
        &&& r.chars@ == composed_from(s2, s2.len() - r.backspace)
    }
}

/// Whether the mark transform fires: reverting needs letters; applying
/// needs letters, a valid word and a vowel.
pub open spec fn mark_applies(s: Seq<Char>, l: Option<Transform>, key: u16) -> bool {
    if spec_mark_revert(l, key) {
        s.len() > 0
    } else {
        s.len() > 0 && spec_valid(keys_of(s)) && spec_vowels(s).len() > 0
    }
}

/// What a firing mark transform does.
pub open spec fn mark_outcome(
    s: Seq<Char>,
    l: Option<Transform>,
    method: u8,
    modern: bool,
    key: u16,
    caps: bool,
    s2: Seq<Char>,
    l2: Option<Transform>,
    r: Result,
) -> bool {
    if spec_mark_revert(l, key) {
        let lm = last_marked(s);
        if lm == -1 {
            &&& s2 == s
            &&& l2 is None
            &&& r.action == Action::Pass
            &&& r.backspace == 0
            &&& r.chars@.len() == 0
        } else {
            let cleared = s.update(lm, (Char { mark: MARK_NONE, ..s[lm] }));
            &&& l2 is None
            &&& s2 == (if s.len() < MAX {
                cleared.push(
                    (Char { key, caps, tone: TONE_NONE, mark: MARK_NONE, stroke: false }),
                )
            } else {
                cleared
            })
            &&& r.action == Action::Send
            &&& r.backspace as int == s.len() - lm
            &&& r.chars@ == capped_chars(composed_from(s2, lm))
        }
    } else {
        let mval = input::spec_mark_value(method, key);
        let vs = spec_vowels(s);
        let np = vowel::spec_find_tone_position(
            vs,
            spec_has_final(s, vs.last().pos as int),
            modern,
            spec_has_qu(s),
            spec_has_gi(s),
        );
        let om = first_marked_from(s, 0);
        let rp: int = if om >= 0 && om < np {
            om
        } else {
            np as int
        };
        &&& l2 == Some(Transform::Mark(key, mval))
        &&& s2 == (if om >= 0 && om != np {
            s.update(om, (Char { mark: MARK_NONE, ..s[om] })).update(
                np as int,
                (Char { mark: mval, ..s[np as int] }),
            )
        } else {
            s.update(np as int, (Char { mark: mval, ..s[np as int] }))
        })
        &&& r.action == Action::Send
        &&& r.backspace as int == s.len() - rp
        &&& r.chars@ == composed_from(s2, rp)
    }
}

/// What the remove key does: clear the rightmost mark if any mark stands,
/// else the rightmost tone modifier, else nothing.
pub open spec fn remove_outcome(s: Seq<Char>, s2: Seq<Char>, l2: Option<Transform>, r: Result) -> bool {
    let lm = last_marked(s);
    let lt = last_toned(s);
    &&& l2 is None
    &&& if lm >= 0 {
        &&& s2 == s.update(lm, (Char { mark: MARK_NONE, ..s[lm] }))
        &&& r.action == Action::Send
        &&& r.backspace as int == s.len() - lm
        &&& r.chars@ == composed_from(s2, lm)
    } else if lt >= 0 {
        &&& s2 == s.update(lt, (Char { tone: TONE_NONE, ..s[lt] }))
        &&& r.action == Action::Send
        &&& r.backspace as int == s.len() - lt
        &&& r.chars@ == composed_from(s2, lt)
    } else {
        s2 == s && r.action == Action::Pass && r.backspace == 0 && r.chars@.len() == 0
    }
}

/// Whether the Telex `w`-as-vowel step fires: reverting needs letters;
/// applying needs room and the validator's consent to the speculative
/// u-horn.
pub open spec fn w_applies(s: Seq<Char>, l: Option<Transform>) -> bool {
    if l == Some(Transform::WAsVowel) {
        s.len() > 0
    } else {
        s.len() < MAX && spec_valid(keys_of(s).push(keys::U))
    }
}

/// What a firing `w`-as-vowel step does.
pub open spec fn w_outcome(
    s: Seq<Char>,
    l: Option<Transform>,
    caps: bool,
    s2: Seq<Char>,
    l2: Option<Transform>,
    r: Result,
) -> bool {
    if l == Some(Transform::WAsVowel) {
        let d = s.drop_last();
        let w1 = (Char {
            key: keys::W,
            caps: s.last().caps,
            tone: TONE_NONE,
            mark: MARK_NONE,
            stroke: false,
        });
        let w2 = (Char { key: keys::W, caps, tone: TONE_NONE, mark: MARK_NONE, stroke: false });
        &&& l2 is None
        &&& s2 == (if s.len() < MAX {
            d.push(w1).push(w2)
        } else {
            d.push(w1)
        })
        &&& r.action == Action::Send
        &&& r.backspace == 1
        &&& r.chars@ == seq![
            (if s.last().caps {
                'W'
            } else {
                'w'
            }),
            (if caps {
                'W'
            } else {
                'w'
            }),
        ]
    } else {
        let rec = (Char { key: keys::U, caps, tone: TONE_HORN, mark: MARK_NONE, stroke: false });
        &&& l2 == Some(Transform::WAsVowel)
        &&& s2 == s.push(rec)
        &&& r.action == Action::Send
        &&& r.backspace == 0
        &&& r.chars@ == seq![spec_composed(rec)]
    }
}

/// What a key that fired no transform does: a letter is pushed, anything
/// else clears the buffer; the host shows the key itself.
pub open spec fn letter_outcome(
    s: Seq<Char>,
    key: u16,
    caps: bool,
    s2: Seq<Char>,
    l2: Option<Transform>,
    r: Result,
) -> bool {
    &&& l2 is None
    &&& r.action == Action::Pass
    &&& r.backspace == 0
    &&& r.chars@.len() == 0
    &&& s2 == (if keys::spec_is_letter(key) {
        if s.len() < MAX {
            s.push((Char { key, caps, tone: TONE_NONE, mark: MARK_NONE, stroke: false }))
        } else {
            s
        }
    } else {
        Seq::<Char>::empty()
    })
}

/// The whole transform pipeline for an ordinary key, in its fixed order:
/// stroke, tone, mark, remove, Telex `w`-as-vowel, plain letter.  The first
/// stage that fires consumes the keystroke and determines the new buffer,
/// the new last-transform marker and the result.
pub open spec fn pipeline_post(
    method: u8,
    modern: bool,
    s: Seq<Char>,
    l: Option<Transform>,
    key: u16,
    caps: bool,
    s2: Seq<Char>,
    l2: Option<Transform>,
    r: Result,
) -> bool {
    if input::spec_stroke_key(method, key) && stroke_applies(s, l, key) {
        stroke_outcome(s, l, key, s2, l2, r)
    } else if input::spec_tone_value(method, key) != TONE_NONE && tone_applies(s, l, method, key) {
        tone_outcome(s, l, method, modern, key, caps, s2, l2, r)
    } else if input::spec_mark_value(method, key) != MARK_NONE && mark_applies(s, l, key) {
        mark_outcome(s, l, method, modern, key, caps, s2, l2, r)
    } else if input::spec_remove_key(method, key) {
        remove_outcome(s, s2, l2, r)
    } else if method == input::TELEX && key == keys::W && w_applies(s, l) {
        w_outcome(s, l, caps, s2, l2, r)
    } else {
        letter_outcome(s, key, caps, s2, l2, r)
    }
}

/// Every eligible index bounds the rightmost eligible index from below.
pub proof fn lemma_last_eligible_at(s: Seq<Char>, method: u8, key: u16, i: int)
    requires
        0 <= i < s.len(),
        keys::spec_is_vowel(s[i].key),
        input::spec_tone_target(method, key, s[i].key),
        s[i].tone == TONE_NONE,
    ensures
        last_eligible(s, method, key) >= i,
    decreases s.len(),
{
    if i < s.len() - 1 && !(keys::spec_is_vowel(s.last().key) && input::spec_tone_target(
        method,
        key,
        s.last().key,
    ) && s.last().tone == TONE_NONE) {
        lemma_last_eligible_at(s.drop_last(), method, key, i);
    }
}

/// Every element of `spec_vowels_from` mirrors a vowel record of `s`.
pub proof fn lemma_vowels_props(s: Seq<Char>, i: int)
    requires
        0 <= i <= s.len(),
        s.len() <= usize::MAX,
    ensures
        forall|k: int|
            0 <= k < spec_vowels_from(s, i).len() ==> {
                let v = #[trigger] spec_vowels_from(s, i)[k];
                &&& i <= v.pos < s.len()
                &&& s[v.pos as int].key == v.key
                &&& s[v.pos as int].tone == v.tone
                &&& keys::spec_is_vowel(v.key)
            },
    decreases s.len() - i,
{
    if i < s.len() {
        lemma_vowels_props(s, i + 1);
        let t = spec_vowels_from(s, i + 1);
        if keys::spec_is_vowel(s[i].key) {
            let v = Vowel { key: s[i].key, tone: s[i].tone, pos: i as usize };
            assert forall|k: int| 0 <= k < spec_vowels_from(s, i).len() implies {
                let w = #[trigger] spec_vowels_from(s, i)[k];
                &&& i <= w.pos < s.len()
                &&& s[w.pos as int].key == w.key
                &&& s[w.pos as int].tone == w.tone
                &&& keys::spec_is_vowel(w.key)
            } by {
                if k == 0 {
                    assert(spec_vowels_from(s, i)[0] == v);
                } else {
                    assert(spec_vowels_from(s, i)[k] == t[k - 1]);
                }
            }
        }
    }
}

/// The main Vietnamese input engine.
pub struct Engine {
    buf: Buffer,
    method: u8,
    enabled: bool,
    modern: bool,
    last_transform: Option<Transform>,
    shortcuts: ShortcutTable,
}

impl Engine {
    /// The buffer contents.
    pub closed spec fn bufv(self) -> Seq<Char> {
        self.buf@
    }

    /// The last-transform marker.
    pub closed spec fn lastt(self) -> Option<Transform> {
        self.last_transform
    }

    /// The active input method number.
    pub closed spec fn methodv(self) -> u8 {
        self.method
    }

    /// Whether the engine is enabled.
    pub closed spec fn enabledv(self) -> bool {
        self.enabled
    }

    /// Whether modern tone placement is active.
    pub closed spec fn modernv(self) -> bool {
        self.modern
    }

    /// The shortcut rules.
    pub closed spec fn shortcutsv(self) -> Seq<shortcut::RuleView> {
        self.shortcuts@
    }

    /// The engine invariant: a well-formed buffer (only letter keys, at most
    /// one mark, tones and marks only on vowels, stroke only on `D`, length
    /// within capacity).
    pub open spec fn wf(self) -> bool {
        buf_wf(self.bufv())
    }

    /// A fresh engine: Telex, enabled, modern placement, empty buffer, no
    /// rules.
    pub fn new() -> (r: Engine)
        ensures
            r.wf(),
            r.bufv() == Seq::<Char>::empty(),
            r.lastt() is None,
            r.methodv() == input::TELEX,
            r.enabledv(),
            r.modernv(),
            r.shortcutsv() == Seq::<shortcut::RuleView>::empty(),
    {
        let e = Engine {
            buf: Buffer::new(),
            method: input::TELEX,
            enabled: true,
            modern: true,
            last_transform: None,
            shortcuts: ShortcutTable::new(),
        };
        proof {
            lemma_mark_count_zero(e.buf@);
        }
        e
    }

    /// Select the input method: 0 Telex, 1 VNI; other numbers are reserved
    /// and behave as Telex.
    pub fn set_method(&mut self, method: u8)
        ensures
            final(self).methodv() == method,
            final(self).bufv() == old(self).bufv(),
            final(self).lastt() == old(self).lastt(),
            final(self).enabledv() == old(self).enabledv(),
            final(self).modernv() == old(self).modernv(),
            final(self).shortcutsv() == old(self).shortcutsv(),
    {
        self.method = method;
    }

    /// Enable or disable the engine; disabling clears all per-word state.
    pub fn set_enabled(&mut self, enabled: bool)
        ensures
            final(self).enabledv() == enabled,
            !enabled ==> final(self).bufv() == Seq::<Char>::empty() && final(self).lastt() is None,
            enabled ==> final(self).bufv() == old(self).bufv() && final(self).lastt() == old(self).lastt(),
            final(self).methodv() == old(self).methodv(),
            final(self).modernv() == old(self).modernv(),
            final(self).shortcutsv() == old(self).shortcutsv(),
    {
        self.enabled = enabled;
        if !enabled {
            self.buf.clear();
            self.last_transform = None;
        }
    }

    /// Choose modern or traditional tone placement.
    pub fn set_modern_tone(&mut self, modern: bool)
        ensures
            final(self).modernv() == modern,
            final(self).bufv() == old(self).bufv(),
            final(self).lastt() == old(self).lastt(),
            final(self).enabledv() == old(self).enabledv(),
            final(self).methodv() == old(self).methodv(),
            final(self).shortcutsv() == old(self).shortcutsv(),
    {
        self.modern = modern;
    }

    /// Mutable access to the shortcut table.
    pub fn shortcuts_mut(&mut self) -> (r: &mut ShortcutTable)
        ensures
            (*r)@ == old(self).shortcutsv(),
            final(self).shortcutsv() == (*final(r))@,
            final(self).bufv() == old(self).bufv(),
            final(self).lastt() == old(self).lastt(),
            final(self).enabledv() == old(self).enabledv(),
            final(self).methodv() == old(self).methodv(),
            final(self).modernv() == old(self).modernv(),
    {
        &mut self.shortcuts
    }

    /// Clear the buffer and the last-transform marker.
    pub fn clear(&mut self)
        ensures
            final(self).bufv() == Seq::<Char>::empty(),
            final(self).lastt() is None,
            final(self).enabledv() == old(self).enabledv(),
            final(self).methodv() == old(self).methodv(),
            final(self).modernv() == old(self).modernv(),
            final(self).shortcutsv() == old(self).shortcutsv(),
            final(self).wf(),
    {
        self.buf.clear();
        self.last_transform = None;
        proof {
            lemma_mark_count_zero(self.buf@);
        }
    }

    /// The method number used for shortcut matching: reserved methods match
    /// rules of any method.
    fn current_input_method(&self) -> (r: u8)
        ensures
            r == (if self.methodv() == input::TELEX {
                input::TELEX
            } else if self.methodv() == input::VNI {
                input::VNI
            } else {
                shortcut::METHOD_ANY
            }),
    {
        if self.method == input::TELEX {
            input::TELEX
        } else if self.method == input::VNI {
            input::VNI
        } else {
            shortcut::METHOD_ANY
        }
    }

    /// Handle one key event.
    ///
    /// Disabled or with control held, the engine clears its state and stays
    /// out of the way.  A word-break key first offers the buffered word to
    /// the shortcut table, then clears the state.  Backspace drops the last
    /// buffer record.  Everything else runs the transform pipeline.
    pub fn on_key(&mut self, key: u16, caps: bool, ctrl: bool) -> (r: Result)
        requires
            old(self).wf(),
        ensures
            final(self).wf(),
            final(self).enabledv() == old(self).enabledv(),
            final(self).methodv() == old(self).methodv(),
            final(self).modernv() == old(self).modernv(),
            final(self).shortcutsv() == old(self).shortcutsv(),
            r.action != Action::Restore,
            r.backspace as int <= old(self).bufv().len(),
            !old(self).enabledv() || ctrl ==> final(self).bufv().len() == 0 && final(self).lastt() is None && r.action == Action::Pass && r.backspace == 0 && r.chars@.len() == 0,
            old(self).enabledv() && !ctrl && keys::spec_is_break(key) ==> final(self).bufv().len() == 0 && final(self).lastt() is None,
            old(self).enabledv() && !ctrl && keys::spec_is_break(key) && old(self).bufv().len()
                == 0 ==> r.action == Action::Pass && r.backspace == 0 && r.chars@.len() == 0,
            old(self).enabledv() && !ctrl && keys::spec_is_break(key) && old(self).bufv().len() > 0
                ==> ({
                let m = if old(self).methodv() == input::TELEX {
                    input::TELEX
                } else if old(self).methodv() == input::VNI {
                    input::VNI
                } else {
                    shortcut::METHOD_ANY
                };
                let fmi = first_match_index(old(self).shortcutsv(), raw_of(old(self).bufv()), m);
                if fmi == -1 {
                    r.action == Action::Pass && r.backspace == 0 && r.chars@.len() == 0
                } else {
                    r.action == Action::Send && r.backspace == old(self).bufv().len() && r.chars@
                        == capped_chars(old(self).shortcutsv()[fmi].output)
                }
            }),
            ({
                let m = old(self).methodv();
                old(self).enabledv() && !ctrl && !keys::spec_is_break(key) && key != keys::DELETE
                    && !input::spec_stroke_key(m, key) && input::spec_tone_value(m, key)
                    == TONE_NONE && input::spec_mark_value(m, key) == MARK_NONE
                    && !input::spec_remove_key(m, key) && !(m == input::TELEX && key == keys::W)
                    ==> r.action == Action::Pass && final(self).lastt() is None && final(self).bufv() == (if keys::spec_is_letter(key) {
                    if old(self).bufv().len() < MAX {
                        old(self).bufv().push(
                            (Char { key, caps, tone: TONE_NONE, mark: MARK_NONE, stroke: false }),
                        )
                    } else {
                        old(self).bufv()
                    }
                } else {
                    Seq::<Char>::empty()
                })
            }),
            old(self).enabledv() && !ctrl && !keys::spec_is_break(key) && key == keys::DELETE
                ==> final(self).lastt() is None && r.action == Action::Pass && r.backspace == 0
                && r.chars@.len() == 0 && final(self).bufv() == (if old(self).bufv().len() > 0 {
                old(self).bufv().drop_last()
            } else {
                old(self).bufv()
            }),
            final(self).lastt() matches Some(t) ==> old(self).enabledv() && !ctrl
                && !keys::spec_is_break(key) && key != keys::DELETE && transform_of_key(
                old(self).methodv(),
                key,
                t,
            ),
            old(self).enabledv() && !ctrl && !keys::spec_is_break(key) && key != keys::DELETE
                ==> pipeline_post(
                old(self).methodv(),
                old(self).modernv(),
                old(self).bufv(),
                old(self).lastt(),
                key,
                caps,
                final(self).bufv(),
                final(self).lastt(),
                r,
            ),
    {
        if !self.enabled || ctrl {
            self.buf.clear();
            self.last_transform = None;
            proof {
                lemma_mark_count_zero(self.buf@);
            }
            return Result::none();
        }
        if keys::is_break(key) {
            let result = self.try_word_boundary_shortcut(key);
            self.buf.clear();
            self.last_transform = None;
            proof {
                lemma_mark_count_zero(self.buf@);
            }
            return result;
        }
        if key == keys::DELETE {
            proof {
                if self.buf@.len() > 0 {
                    lemma_mark_count_drop_last(self.buf@);
                }
            }
            self.buf.pop();
            self.last_transform = None;
            return Result::none();
        }
        self.process(key, caps)
    }

    /// Offer the buffered raw word to the shortcut table.  On a match the
    /// whole word on screen is replaced by the rule's output; the host then
    /// inserts the break character itself.
    fn try_word_boundary_shortcut(&self, key: u16) -> (r: Result)
        requires
            self.wf(),
        ensures
            r.action != Action::Restore,
            r.backspace as int <= self.bufv().len(),
            self.bufv().len() == 0 ==> r.action == Action::Pass && r.backspace == 0
                && r.chars@.len() == 0,
            self.bufv().len() > 0 ==> ({
                let m = if self.methodv() == input::TELEX {
                    input::TELEX
                } else if self.methodv() == input::VNI {
                    input::VNI
                } else {
                    shortcut::METHOD_ANY
                };
                let fmi = first_match_index(self.shortcutsv(), raw_of(self.bufv()), m);
                if fmi == -1 {
                    r.action == Action::Pass && r.backspace == 0 && r.chars@.len() == 0
                } else {
                    r.action == Action::Send && r.backspace == self.bufv().len() && r.chars@
                        == capped_chars(self.shortcutsv()[fmi].output)
                }
            }),
    {
        if self.buf.is_empty() {
            return Result::none();
        }
        let raw = self.raw_chars();
        let composed = self.composed_chars();
        let brk = if key == keys::TAB {
            '\t'
        } else if key == keys::ENTER {
            '\n'
        } else {
            ' '
        };
        let m = self.current_input_method();
        proof {
            shortcut::lemma_match_index_bounds(self.shortcutsv(), raw@, m, 0);
        }
        match self.shortcuts.try_match(&raw, &composed, brk, m) {
            Some(mtch) => Result::send(mtch.backspace, mtch.output),
            None => Result::none(),
        }
    }

    /// The composed characters of the whole buffer, as shown on screen.
    fn composed_chars(&self) -> (r: Vec<char>)
        requires
            self.wf(),
        ensures
            r@ == composed_from(self.bufv(), 0),
    {
        let n = self.buf.len();
        let mut out: Vec<char> = Vec::new();
        let mut i: usize = 0;
        while i < n
            invariant
                i <= n,
                n == self.bufv().len(),
                out@.len() == i,
                forall|j: int| 0 <= j < i ==> out@[j] == spec_composed(self.bufv()[j]),
            decreases n - i,
        {
            out.push(composed_char(self.buf.get(i)));
            i = i + 1;
        }
        proof {
            assert(out@ =~= composed_from(self.bufv(), 0));
        }
        out
    }

    /// The raw letters of the buffer, with case.
    fn raw_chars(&self) -> (r: Vec<char>)
        ensures
            r@ == raw_of(self.bufv()),
    {
        let n = self.buf.len();
        let mut out: Vec<char> = Vec::new();
        let mut i: usize = 0;
        while i < n
            invariant
                i <= n,
                n == self.bufv().len(),
                out@.len() == i,
                forall|j: int| 0 <= j < i ==> out@[j] == spec_raw_char(self.bufv()[j]),
            decreases n - i,
        {
            let c = self.buf.get(i);
            let ch = match key_to_char(c.key, c.caps) {
                Some(ch) => ch,
                None => '?',
            };
            out.push(ch);
            i = i + 1;
        }
        proof {
            assert(out@ =~= raw_of(self.bufv()));
        }
        out
    }

    /// The transform pipeline for an ordinary key: stroke, tone, mark,
    /// remove, Telex `w`-as-vowel, and finally the plain letter.
    fn process(&mut self, key: u16, caps: bool) -> (r: Result)
        requires
            old(self).wf(),
        ensures
            final(self).wf(),
            final(self).enabledv() == old(self).enabledv(),
            final(self).methodv() == old(self).methodv(),
            final(self).modernv() == old(self).modernv(),
            final(self).shortcutsv() == old(self).shortcutsv(),
            r.action != Action::Restore,
            r.backspace as int <= old(self).bufv().len(),
            r.chars@.len() <= MAX + 1,
            final(self).lastt() matches Some(t) ==> transform_of_key(old(self).methodv(), key, t),
            pipeline_post(
                old(self).methodv(),
                old(self).modernv(),
                old(self).bufv(),
                old(self).lastt(),
                key,
                caps,
                final(self).bufv(),
                final(self).lastt(),
                r,
            ),
            ({
                let m = old(self).methodv();
                !input::spec_stroke_key(m, key) && input::spec_tone_value(m, key) == TONE_NONE
                    && input::spec_mark_value(m, key) == MARK_NONE && !input::spec_remove_key(
                    m,
                    key,
                ) && !(m == input::TELEX && key == keys::W) ==> {
                    &&& r.action == Action::Pass
                    &&& final(self).lastt() is None
                    &&& final(self).bufv() == (if keys::spec_is_letter(key) {
                        if old(self).bufv().len() < MAX {
                            old(self).bufv().push(
                                Char {
                                    key,
                                    caps,
                                    tone: TONE_NONE,
                                    mark: MARK_NONE,
                                    stroke: false,
                                },
                            )
                        } else {
                            old(self).bufv()
                        }
                    } else {
                        Seq::<Char>::empty()
                    })
                }
            }),
    {
        let m = self.method;
        if input::stroke_key(m, key) {
            if let Some(result) = self.try_stroke(key) {
                return result;
            }
        }
        if input::tone_value(m, key) != TONE_NONE {
            if let Some(result) = self.try_tone(key, caps) {
                return result;
            }
        }
        if input::mark_value(m, key) != MARK_NONE {
            if let Some(result) = self.try_mark(key, caps) {
                return result;
            }
        }
        if input::remove_key(m, key) {
            self.last_transform = None;
            return self.handle_remove();
        }
        if m == input::TELEX && key == keys::W {
            if let Some(result) = self.try_w_as_vowel(caps) {
                return result;
            }
        }
        self.handle_normal_letter(key, caps)
    }

    /// A key that fired no transform: a letter is pushed as a fresh record;
    /// anything else clears the buffer.
    fn handle_normal_letter(&mut self, key: u16, caps: bool) -> (r: Result)
        requires
            old(self).wf(),
        ensures
            final(self).wf(),
            final(self).lastt() is None,
            r.action == Action::Pass,
            r.backspace == 0,
            r.chars@.len() == 0,
            unchanged_flags(*old(self), *final(self)),
            final(self).bufv() == (if keys::spec_is_letter(key) {
                if old(self).bufv().len() < MAX {
                    old(self).bufv().push(
                        Char { key, caps, tone: TONE_NONE, mark: MARK_NONE, stroke: false },
                    )
                } else {
                    old(self).bufv()
                }
            } else {
                Seq::<Char>::empty()
            }),
    {
        self.last_transform = None;
        if keys::is_letter(key) {
            let c = Char::new(key, caps);
            proof {
                lemma_mark_count_push(self.buf@, c);
            }
            self.buf.push(c);
        } else {
            self.buf.clear();
            proof {
                lemma_mark_count_zero(self.buf@);
            }
        }
        Result::none()
    }
}

impl Engine {
    /// Whether any buffer record is a vowel.
    fn has_vowel_buf(&self) -> (r: bool)
        ensures
            r == spec_has_vowel(self.bufv()),
    {
        let n = self.buf.len();
        let mut i: usize = 0;
        while i < n
            invariant
                i <= n,
                n == self.bufv().len(),
                forall|j: int| 0 <= j < i ==> !keys::spec_is_vowel(#[trigger] self.bufv()[j].key),
            decreases n - i,
        {
            if keys::is_vowel(self.buf.get(i).key) {
                return true;
            }
            i = i + 1;
        }
        false
    }

    /// Whether an adjacent `u`-`o` or `o`-`u` pair stands in the buffer.
    fn has_uo_adjacent(&self) -> (r: bool)
        ensures
            r == spec_has_uo_adjacent(self.bufv()),
    {
        let n = self.buf.len();
        if n < 2 {
            return false;
        }
        let mut i: usize = 0;
        while i + 1 < n
            invariant
                i + 1 <= n,
                n == self.bufv().len(),
                forall|j: int|
                    0 <= j < i ==> !(((#[trigger] self.bufv()[j]).key == keys::U && self.bufv()[j
                        + 1].key == keys::O) || (self.bufv()[j].key == keys::O && self.bufv()[j
                        + 1].key == keys::U)),
            decreases n - i,
        {
            let a = self.buf.get(i).key;
            let b = self.buf.get(i + 1).key;
            if (a == keys::U && b == keys::O) || (a == keys::O && b == keys::U) {
                return true;
            }
            i = i + 1;
        }
        false
    }

    /// Collect the buffer's vowels with their positions.
    fn collect_vowels(&self) -> (r: Vec<Vowel>)
        ensures
            r@ == spec_vowels(self.bufv()),
    {
        let ghost s = self.bufv();
        let n = self.buf.len();
        let mut out: Vec<Vowel> = Vec::new();
        let mut i: usize = 0;
        while i < n
            invariant
                i <= n,
                n == s.len(),
                s == self.bufv(),
                spec_vowels_from(s, 0) =~= out@.add(spec_vowels_from(s, i as int)),
            decreases n - i,
        {
            let c = self.buf.get(i);
            if keys::is_vowel(c.key) {
                let ghost before = out@;
                out.push(Vowel { key: c.key, tone: c.tone, pos: i });
                proof {
                    let v = Vowel { key: s[i as int].key, tone: s[i as int].tone, pos: i };
                    assert(spec_vowels_from(s, i as int) =~= seq![v].add(
                        spec_vowels_from(s, i + 1),
                    ));
                    assert(before.add(seq![v].add(spec_vowels_from(s, i + 1))) =~= out@.add(
                        spec_vowels_from(s, i + 1),
                    ));
                }
            }
            i = i + 1;
        }
        proof {
            assert(out@.add(spec_vowels_from(s, n as int)) =~= out@);
        }
        out
    }

    /// Whether a consonant stands after position `after`.
    fn has_final_consonant(&self, after: usize) -> (r: bool)
        requires
            after < self.bufv().len(),
        ensures
            r == spec_has_final(self.bufv(), after as int),
    {
        let n = self.buf.len();
        let mut i: usize = after + 1;
        while i < n
            invariant
                after + 1 <= i <= n,
                n == self.bufv().len(),
                forall|j: int|
                    after < j < i ==> !keys::spec_is_consonant(#[trigger] self.bufv()[j].key),
            decreases n - i,
        {
            if keys::is_consonant(self.buf.get(i).key) {
                return true;
            }
            i = i + 1;
        }
        false
    }

    /// Whether the word starts with `qu`.
    fn has_qu_initial(&self) -> (r: bool)
        ensures
            r == spec_has_qu(self.bufv()),
    {
        self.buf.len() >= 2 && self.buf.get(0).key == keys::Q && self.buf.get(1).key == keys::U
    }

    /// Whether the word starts with `gi`.
    fn has_gi_initial(&self) -> (r: bool)
        ensures
            r == spec_has_gi(self.bufv()),
    {
        self.buf.len() >= 2 && self.buf.get(0).key == keys::G && self.buf.get(1).key == keys::I
    }

    /// Position of the leftmost un-stroked `D`, or the length if none.
    fn find_first_unstroked_d(&self) -> (r: usize)
        ensures
            r <= self.bufv().len(),
            r == self.bufv().len() ==> first_unstroked_d_from(self.bufv(), 0) == -1,
            r < self.bufv().len() ==> r as int == first_unstroked_d_from(self.bufv(), 0)
                && self.bufv()[r as int].key == keys::D && !self.bufv()[r as int].stroke,
    {
        let n = self.buf.len();
        let mut i: usize = 0;
        while i < n
            invariant
                i <= n,
                n == self.bufv().len(),
                first_unstroked_d_from(self.bufv(), 0) == first_unstroked_d_from(
                    self.bufv(),
                    i as int,
                ),
            decreases n - i,
        {
            let c = self.buf.get(i);
            if c.key == keys::D && !c.stroke {
                return i;
            }
            i = i + 1;
        }
        n
    }

    /// Position of the leftmost stroked `D`, or the length if none.
    fn find_first_stroked_d(&self) -> (r: usize)
        ensures
            r <= self.bufv().len(),
            r == self.bufv().len() ==> first_stroked_d_from(self.bufv(), 0) == -1,
            r < self.bufv().len() ==> r as int == first_stroked_d_from(self.bufv(), 0)
                && self.bufv()[r as int].key == keys::D && self.bufv()[r as int].stroke,
    {
        let n = self.buf.len();
        let mut i: usize = 0;
        while i < n
            invariant
                i <= n,
                n == self.bufv().len(),
                first_stroked_d_from(self.bufv(), 0) == first_stroked_d_from(
                    self.bufv(),
                    i as int,
                ),
            decreases n - i,
        {
            let c = self.buf.get(i);
            if c.key == keys::D && c.stroke {
                return i;
            }
            i = i + 1;
        }
        n
    }

    /// Position of the leftmost marked record, or the length if none.
    fn find_first_marked(&self) -> (r: usize)
        ensures
            r <= self.bufv().len(),
            r == self.bufv().len() ==> first_marked_from(self.bufv(), 0) == -1,
            r < self.bufv().len() ==> r as int == first_marked_from(self.bufv(), 0)
                && self.bufv()[r as int].mark != MARK_NONE,
    {
        let n = self.buf.len();
        let mut i: usize = 0;
        while i < n
            invariant
                i <= n,
                n == self.bufv().len(),
                first_marked_from(self.bufv(), 0) == first_marked_from(self.bufv(), i as int),
            decreases n - i,
        {
            if self.buf.get(i).mark != MARK_NONE {
                return i;
            }
            i = i + 1;
        }
        n
    }

    /// Position of the rightmost vowel with a tone modifier, or the length
    /// if none.
    fn find_last_toned(&self) -> (r: usize)
        ensures
            r <= self.bufv().len(),
            r == self.bufv().len() ==> last_toned(self.bufv()) == -1,
            r < self.bufv().len() ==> r as int == last_toned(self.bufv())
                && keys::spec_is_vowel(self.bufv()[r as int].key) && self.bufv()[r as int].tone
                != TONE_NONE,
    {
        let ghost s = self.bufv();
        let n = self.buf.len();
        let mut i: usize = n;
        while i > 0
            invariant
                0 <= i <= n,
                n == s.len(),
                s == self.bufv(),
                forall|k: int|
                    i <= k < n ==> !(keys::spec_is_vowel((#[trigger] s[k]).key) && s[k].tone
                        != TONE_NONE),
            decreases i,
        {
            i = i - 1;
            let c = self.buf.get(i);
            if keys::is_vowel(c.key) && c.tone != TONE_NONE {
                proof {
                    lemma_last_toned_suffix(s, i + 1);
                    assert(s.take(i + 1).last() == s[i as int]);
                    assert(s.take(i + 1).drop_last() =~= s.take(i as int));
                    assert(last_toned(s) == i as int);
                }
                return i;
            }
        }
        proof {
            lemma_last_toned_suffix(s, 0);
            assert(s.take(0) =~= Seq::<Char>::empty());
        }
        n
    }

    /// Position of the rightmost vowel with a mark, or the length if none.
    fn find_last_marked(&self) -> (r: usize)
        ensures
            r <= self.bufv().len(),
            r == self.bufv().len() ==> last_marked(self.bufv()) == -1,
            r < self.bufv().len() ==> r as int == last_marked(self.bufv())
                && keys::spec_is_vowel(self.bufv()[r as int].key) && self.bufv()[r as int].mark
                != MARK_NONE,
    {
        let ghost s = self.bufv();
        let n = self.buf.len();
        let mut i: usize = n;
        while i > 0
            invariant
                0 <= i <= n,
                n == s.len(),
                s == self.bufv(),
                forall|k: int|
                    i <= k < n ==> !(keys::spec_is_vowel((#[trigger] s[k]).key) && s[k].mark
                        != MARK_NONE),
            decreases i,
        {
            i = i - 1;
            let c = self.buf.get(i);
            if keys::is_vowel(c.key) && c.mark != MARK_NONE {
                proof {
                    lemma_last_marked_suffix(s, i + 1);
                    assert(s.take(i + 1).last() == s[i as int]);
                    assert(s.take(i + 1).drop_last() =~= s.take(i as int));
                    assert(last_marked(s) == i as int);
                }
                return i;
            }
        }
        proof {
            lemma_last_marked_suffix(s, 0);
            assert(s.take(0) =~= Seq::<Char>::empty());
        }
        n
    }

    /// Emit the edit that redraws the buffer from `from` on: delete what was
    /// shown for those records, insert their composed characters.
    fn rebuild_from(&self, from: usize) -> (r: Result)
        requires
            self.wf(),
            from <= self.bufv().len(),
        ensures
            r.action != Action::Restore,
            r.backspace as int == self.bufv().len() - from,
            r.chars@.len() == self.bufv().len() - from,
            from < self.bufv().len() ==> r.action == Action::Send && r.chars@ == composed_from(
                self.bufv(),
                from as int,
            ),
            from == self.bufv().len() ==> r.action == Action::Pass,
    {
        let n = self.buf.len();
        if from == n {
            return Result::none();
        }
        let mut out: Vec<char> = Vec::new();
        let mut i: usize = from;
        while i < n
            invariant
                from <= i <= n,
                n == self.bufv().len(),
                out@.len() == i - from,
                forall|j: int|
                    from <= j < i ==> out@[j - from] == spec_composed(#[trigger] self.bufv()[j]),
            decreases n - i,
        {
            out.push(composed_char(self.buf.get(i)));
            i = i + 1;
        }
        proof {
            assert(out@ =~= composed_from(self.bufv(), from as int));
        }
        Result::send((n - from) as u8, out)
    }

    /// Shared revert tail: the attribute at `pos` was already cleared; append
    /// a fresh record for the reverting key and redraw from `pos`.  The
    /// deletion count is taken before the append: the new key was never on
    /// screen.
    fn revert_and_rebuild(&mut self, pos: usize, key: u16, caps: bool) -> (r: Result)
        requires
            old(self).wf(),
            pos < old(self).bufv().len(),
            keys::spec_is_letter(key),
        ensures
            final(self).wf(),
            unchanged_flags(*old(self), *final(self)),
            final(self).lastt() == old(self).lastt(),
            final(self).bufv() == (if old(self).bufv().len() < MAX {
                old(self).bufv().push(
                    Char { key, caps, tone: TONE_NONE, mark: MARK_NONE, stroke: false },
                )
            } else {
                old(self).bufv()
            }),
            r.action == Action::Send,
            r.backspace as int == old(self).bufv().len() - pos,
            r.chars@ == capped_chars(composed_from(final(self).bufv(), pos as int)),
    {
        let bs = (self.buf.len() - pos) as u8;
        let c = Char::new(key, caps);
        proof {
            lemma_mark_count_push(self.buf@, c);
        }
        self.buf.push(c);
        let n = self.buf.len();
        let mut out: Vec<char> = Vec::new();
        let mut i: usize = pos;
        while i < n
            invariant
                pos <= i <= n,
                n == self.bufv().len(),
                out@.len() == i - pos,
                forall|j: int|
                    pos <= j < i ==> out@[j - pos] == spec_composed(#[trigger] self.bufv()[j]),
            decreases n - i,
        {
            out.push(composed_char(self.buf.get(i)));
            i = i + 1;
        }
        proof {
            assert(out@ =~= composed_from(self.bufv(), pos as int));
        }
        Result::send(bs, out)
    }

    /// The stroke transform: turn the leftmost plain `d` into the stroked d.
    ///
    /// Before the nucleus is typed the stroke always applies; once a vowel
    /// stands in the buffer it applies only to a sequence the validator
    /// accepts.  A repeated stroke key reverts: the stroked d loses its
    /// stroke and the literal key is appended.
    fn try_stroke(&mut self, key: u16) -> (r: Option<Result>)
        requires
            old(self).wf(),
            keys::spec_is_letter(key),
        ensures
            final(self).wf(),
            unchanged_flags(*old(self), *final(self)),
            r is None ==> final(self).bufv() == old(self).bufv(),
            r is Some <==> stroke_applies(old(self).bufv(), old(self).lastt(), key),
            r matches Some(res) ==> stroke_outcome(
                old(self).bufv(),
                old(self).lastt(),
                key,
                final(self).bufv(),
                final(self).lastt(),
                res,
            ),
            r matches Some(res) ==> res.action == Action::Send && res.backspace as int <= old(self).bufv().len() && res.chars@.len() <= MAX + 1,
            spec_stroke_revert(old(self).lastt(), key) ==> final(self).lastt() is None && ({
                let fs = first_stroked_d_from(old(self).bufv(), 0);
                if fs == -1 {
                    r is None
                } else {
                    let cleared = old(self).bufv().update(
                        fs,
                        (Char { stroke: false, ..old(self).bufv()[fs] }),
                    );
                    &&& r is Some
                    &&& final(self).bufv() == (if old(self).bufv().len() < MAX {
                        cleared.push(
                            (Char {
                                key,
                                caps: old(self).bufv()[fs].caps,
                                tone: TONE_NONE,
                                mark: MARK_NONE,
                                stroke: false,
                            }),
                        )
                    } else {
                        cleared
                    })
                    &&& (r matches Some(res) ==> res.backspace as int == old(self).bufv().len()
                        - fs && res.chars@ == capped_chars(composed_from(final(self).bufv(), fs)))
                }
            }),
            !spec_stroke_revert(old(self).lastt(), key) ==> ({
                let fu = first_unstroked_d_from(old(self).bufv(), 0);
                &&& (fu == -1 ==> r is None)
                &&& (fu >= 0 && !spec_has_vowel(old(self).bufv()) ==> r is Some)
                &&& (fu >= 0 && spec_has_vowel(old(self).bufv()) ==> (r is Some <==> spec_valid(
                    keys_of(old(self).bufv()),
                )))
                &&& (r is Some ==> final(self).bufv() == old(self).bufv().update(
                    fu,
                    (Char { stroke: true, ..old(self).bufv()[fu] }),
                ) && final(self).lastt() == Some(Transform::Stroke(key)) && (r matches Some(res)
                    ==> res.backspace as int == old(self).bufv().len() - fu && res.chars@
                    == composed_from(final(self).bufv(), fu)))
                &&& (r is None ==> final(self).lastt() == old(self).lastt())
            }),
    {
        let ghost s = self.bufv();
        let revert = match self.last_transform {
            Some(Transform::Stroke(k)) => k == key,
            _ => false,
        };
        let n = self.buf.len();
        if revert {
            self.last_transform = None;
            let fs = self.find_first_stroked_d();
            if fs == n {
                return None;
            }
            let c = self.buf.get(fs);
            proof {
                lemma_mark_count_update(s, fs as int, (Char { stroke: false, ..c }));
            }
            self.buf.set(fs, Char { stroke: false, ..c });
            let res = self.revert_and_rebuild(fs, key, c.caps);
            return Some(res);
        }
        let pos = self.find_first_unstroked_d();
        if pos == n {
            return None;
        }
        let has_vowel = self.has_vowel_buf();
        if has_vowel {
            let ks = self.buf.keys();
            if !is_valid(&ks) {
                return None;
            }
        }
        let c = self.buf.get(pos);
        proof {
            lemma_mark_count_update(s, pos as int, (Char { stroke: true, ..c }));
        }
        self.buf.set(pos, Char { stroke: true, ..c });
        self.last_transform = Some(Transform::Stroke(key));
        let res = self.rebuild_from(pos);
        Some(res)
    }

    /// Revert the last tone transform: clear the rightmost tone modifier and
    /// let the modifier key stand as a literal letter.
    fn revert_tone(&mut self, key: u16, caps: bool) -> (r: Result)
        requires
            old(self).wf(),
            keys::spec_is_letter(key),
        ensures
            final(self).wf(),
            unchanged_flags(*old(self), *final(self)),
            final(self).lastt() is None,
            r.action != Action::Restore,
            r.backspace as int <= old(self).bufv().len(),
            r.chars@.len() <= MAX + 1,
            ({
                let lt = last_toned(old(self).bufv());
                if lt == -1 {
                    final(self).bufv() == old(self).bufv() && r.action == Action::Pass
                        && r.backspace == 0 && r.chars@.len() == 0
                } else {
                    let cleared = old(self).bufv().update(
                        lt,
                        (Char { tone: TONE_NONE, ..old(self).bufv()[lt] }),
                    );
                    &&& final(self).bufv() == (if old(self).bufv().len() < MAX {
                        cleared.push(
                            (Char { key, caps, tone: TONE_NONE, mark: MARK_NONE, stroke: false }),
                        )
                    } else {
                        cleared
                    })
                    &&& r.action == Action::Send
                    &&& r.backspace as int == old(self).bufv().len() - lt
                    &&& r.chars@ == capped_chars(composed_from(final(self).bufv(), lt))
                }
            }),
    {
        let ghost s = self.bufv();
        self.last_transform = None;
        let n = self.buf.len();
        let lt = self.find_last_toned();
        if lt == n {
            return Result::none();
        }
        let c = self.buf.get(lt);
        proof {
            lemma_mark_count_update(s, lt as int, (Char { tone: TONE_NONE, ..c }));
        }
        self.buf.set(lt, Char { tone: TONE_NONE, ..c });
        self.revert_and_rebuild(lt, key, caps)
    }

    /// Revert the last mark transform: clear the rightmost mark and let the
    /// mark key stand as a literal letter.
    fn revert_mark(&mut self, key: u16, caps: bool) -> (r: Result)
        requires
            old(self).wf(),
            keys::spec_is_letter(key),
        ensures
            final(self).wf(),
            unchanged_flags(*old(self), *final(self)),
            final(self).lastt() is None,
            r.action != Action::Restore,
            r.backspace as int <= old(self).bufv().len(),
            r.chars@.len() <= MAX + 1,
            ({
                let lm = last_marked(old(self).bufv());
                if lm == -1 {
                    final(self).bufv() == old(self).bufv() && r.action == Action::Pass
                        && r.backspace == 0 && r.chars@.len() == 0
                } else {
                    let cleared = old(self).bufv().update(
                        lm,
                        (Char { mark: MARK_NONE, ..old(self).bufv()[lm] }),
                    );
                    &&& final(self).bufv() == (if old(self).bufv().len() < MAX {
                        cleared.push(
                            (Char { key, caps, tone: TONE_NONE, mark: MARK_NONE, stroke: false }),
                        )
                    } else {
                        cleared
                    })
                    &&& r.action == Action::Send
                    &&& r.backspace as int == old(self).bufv().len() - lm
                    &&& r.chars@ == capped_chars(composed_from(final(self).bufv(), lm))
                }
            }),
    {
        let ghost s = self.bufv();
        self.last_transform = None;
        let n = self.buf.len();
        let lm = self.find_last_marked();
        if lm == n {
            return Result::none();
        }
        let c = self.buf.get(lm);
        proof {
            lemma_mark_count_update(s, lm as int, (Char { mark: MARK_NONE, ..c }));
        }
        self.buf.set(lm, Char { mark: MARK_NONE, ..c });
        self.revert_and_rebuild(lm, key, caps)
    }

    /// The remove transform: clear the rightmost mark if any mark stands in
    /// the buffer, else the rightmost tone modifier, else do nothing.
    fn handle_remove(&mut self) -> (r: Result)
        requires
            old(self).wf(),
        ensures
            final(self).wf(),
            unchanged_flags(*old(self), *final(self)),
            final(self).lastt() == old(self).lastt(),
            r.action != Action::Restore,
            r.backspace as int <= old(self).bufv().len(),
            r.chars@.len() <= MAX + 1,
            ({
                let lm = last_marked(old(self).bufv());
                let lt = last_toned(old(self).bufv());
                if lm >= 0 {
                    final(self).bufv() == old(self).bufv().update(
                        lm,
                        (Char { mark: MARK_NONE, ..old(self).bufv()[lm] }),
                    ) && r.action == Action::Send && r.backspace as int == old(self).bufv().len()
                        - lm && r.chars@ == composed_from(final(self).bufv(), lm)
                } else if lt >= 0 {
                    final(self).bufv() == old(self).bufv().update(
                        lt,
                        (Char { tone: TONE_NONE, ..old(self).bufv()[lt] }),
                    ) && r.action == Action::Send && r.backspace as int == old(self).bufv().len()
                        - lt && r.chars@ == composed_from(final(self).bufv(), lt)
                } else {
                    final(self).bufv() == old(self).bufv() && r.action == Action::Pass
                        && r.backspace == 0 && r.chars@.len() == 0
                }
            }),
    {
        let ghost s = self.bufv();
        let n = self.buf.len();
        let lm = self.find_last_marked();
        if lm < n {
            let c = self.buf.get(lm);
            proof {
                lemma_mark_count_update(s, lm as int, (Char { mark: MARK_NONE, ..c }));
            }
            self.buf.set(lm, Char { mark: MARK_NONE, ..c });
            return self.rebuild_from(lm);
        }
        let lt = self.find_last_toned();
        if lt < n {
            let c = self.buf.get(lt);
            proof {
                lemma_mark_count_update(s, lt as int, (Char { tone: TONE_NONE, ..c }));
            }
            self.buf.set(lt, Char { tone: TONE_NONE, ..c });
            return self.rebuild_from(lt);
        }
        Result::none()
    }
}

impl Engine {
    /// The tone transform: put the tone modifier on its target vowel.
    ///
    /// The horn spreads over an adjacent `u`-`o` pair; otherwise the
    /// rightmost eligible vowel without a modifier takes it.  The transform
    /// runs only on a buffer the validator accepts, may move the tone mark
    /// afterwards, and declines when no target is left.  A repeated tone key
    /// reverts.
    #[verifier::loop_isolation(false)]
    #[verifier::rlimit(100)]
    fn try_tone(&mut self, key: u16, caps: bool) -> (r: Option<Result>)
        requires
            old(self).wf(),
            keys::spec_is_letter(key),
            input::spec_tone_value(old(self).methodv(), key) != TONE_NONE,
        ensures
            final(self).wf(),
            unchanged_flags(*old(self), *final(self)),
            r is None ==> final(self).bufv() == old(self).bufv() && final(self).lastt() == old(self).lastt(),
            old(self).bufv().len() == 0 ==> r is None,
            r is Some <==> tone_applies(old(self).bufv(), old(self).lastt(), old(self).methodv(), key),
            r matches Some(res) ==> tone_outcome(
                old(self).bufv(),
                old(self).lastt(),
                old(self).methodv(),
                old(self).modernv(),
                key,
                caps,
                final(self).bufv(),
                final(self).lastt(),
                res,
            ),
            r matches Some(res) ==> res.action != Action::Restore && res.backspace as int <= old(self).bufv().len() && res.chars@.len() <= MAX + 1,
            spec_tone_revert(old(self).lastt(), key) && old(self).bufv().len() > 0 ==> r is Some
                && final(self).lastt() is None && ({
                let lt = last_toned(old(self).bufv());
                if lt == -1 {
                    final(self).bufv() == old(self).bufv()
                } else {
                    let cleared = old(self).bufv().update(
                        lt,
                        (Char { tone: TONE_NONE, ..old(self).bufv()[lt] }),
                    );
                    &&& final(self).bufv() == (if old(self).bufv().len() < MAX {
                        cleared.push(
                            (Char { key, caps, tone: TONE_NONE, mark: MARK_NONE, stroke: false }),
                        )
                    } else {
                        cleared
                    })
                    &&& (r matches Some(res) ==> res.action == Action::Send && res.backspace
                        as int == old(self).bufv().len() - lt && res.chars@ == capped_chars(
                        composed_from(final(self).bufv(), lt),
                    ))
                }
            }),
            !spec_tone_revert(old(self).lastt(), key) && old(self).bufv().len() > 0 && spec_valid(
                keys_of(old(self).bufv()),
            ) && last_eligible(old(self).bufv(), old(self).methodv(), key) >= 0 ==> r is Some,
            !spec_tone_revert(old(self).lastt(), key) && r is Some ==> ({
                let tval = input::spec_tone_value(old(self).methodv(), key);
                &&& (r matches Some(res) ==> res.action == Action::Send && res.chars@
                    == composed_from(
                    final(self).bufv(),
                    final(self).bufv().len() - res.backspace,
                ))
                &&& final(self).bufv() == spec_reposition(
                    tone_applied(old(self).bufv(), old(self).methodv(), key),
                    old(self).modernv(),
                )
                &&& (r matches Some(res) ==> res.backspace as int == old(self).bufv().len()
                    - tone_rebuild_start(old(self).bufv(), old(self).methodv(), key, old(self).modernv()))
                &&& spec_valid(keys_of(old(self).bufv()))
                &&& final(self).lastt() == Some(Transform::Tone(key, tval))
                &&& final(self).bufv().len() == old(self).bufv().len()
                &&& (forall|i: int|
                    0 <= i < old(self).bufv().len() ==> {
                        let a = old(self).bufv()[i];
                        let b = #[trigger] final(self).bufv()[i];
                        b.key == a.key && b.caps == a.caps && b.stroke == a.stroke
                    })
                &&& (forall|i: int|
                    0 <= i < old(self).bufv().len() ==> ((#[trigger] final(self).bufv()[i]).tone
                        == old(self).bufv()[i].tone || (old(self).bufv()[i].tone == TONE_NONE
                        && final(self).bufv()[i].tone == tval && keys::spec_is_vowel(
                        old(self).bufv()[i].key,
                    ))))
                &&& (exists|i: int|
                    0 <= i < old(self).bufv().len() && old(self).bufv()[i].tone == TONE_NONE && (
                    #[trigger] final(self).bufv()[i]).tone == tval)
                &&& (input::spec_tone_is_horn(old(self).methodv(), key) && spec_has_uo_adjacent(
                    old(self).bufv(),
                ) ==> forall|i: int|
                    0 <= i < old(self).bufv().len() && (old(self).bufv()[i].key == keys::U || old(self).bufv()[i].key == keys::O) && old(self).bufv()[i].tone == TONE_NONE ==> (
                    #[trigger] final(self).bufv()[i]).tone == tval)
                &&& mark_count(final(self).bufv()) == mark_count(old(self).bufv())
            }),
    {
        if self.buf.is_empty() {
            return None;
        }
        let revert = match self.last_transform {
            Some(Transform::Tone(k, _)) => k == key,
            _ => false,
        };
        if revert {
            return Some(self.revert_tone(key, caps));
        }
        let ks = self.buf.keys();
        if !is_valid(&ks) {
            return None;
        }
        self.apply_tone(key)
    }

    /// The tone application itself, on a validated non-empty buffer: spread
    /// the horn over an adjacent `u`-`o` pair, or put the value on the
    /// rightmost eligible vowel, then let the mark follow the cluster.
    #[verifier::loop_isolation(false)]
    #[verifier::rlimit(100)]
    fn apply_tone(&mut self, key: u16) -> (r: Option<Result>)
        requires
            old(self).wf(),
            keys::spec_is_letter(key),
            input::spec_tone_value(old(self).methodv(), key) != TONE_NONE,
            old(self).bufv().len() > 0,
            spec_valid(keys_of(old(self).bufv())),
        ensures
            final(self).wf(),
            unchanged_flags(*old(self), *final(self)),
            r is None ==> final(self).bufv() == old(self).bufv() && final(self).lastt() == old(self).lastt(),
            last_eligible(old(self).bufv(), old(self).methodv(), key) >= 0 <==> r is Some,
            r matches Some(res) ==> res.action == Action::Send && res.backspace as int <= old(self).bufv().len() && res.chars@.len() <= MAX + 1,
            r is Some ==> ({
                let tval = input::spec_tone_value(old(self).methodv(), key);
                &&& (r matches Some(res) ==> res.chars@ == composed_from(
                    final(self).bufv(),
                    final(self).bufv().len() - res.backspace,
                ))
                &&& final(self).bufv() == spec_reposition(
                    tone_applied(old(self).bufv(), old(self).methodv(), key),
                    old(self).modernv(),
                )
                &&& (r matches Some(res) ==> res.backspace as int == old(self).bufv().len()
                    - tone_rebuild_start(old(self).bufv(), old(self).methodv(), key, old(self).modernv()))
                &&& final(self).lastt() == Some(Transform::Tone(key, tval))
                &&& final(self).bufv().len() == old(self).bufv().len()
                &&& (forall|i: int|
                    0 <= i < old(self).bufv().len() ==> {
                        let a = old(self).bufv()[i];
                        let b = #[trigger] final(self).bufv()[i];
                        b.key == a.key && b.caps == a.caps && b.stroke == a.stroke
                    })
                &&& (forall|i: int|
                    0 <= i < old(self).bufv().len() ==> ((#[trigger] final(self).bufv()[i]).tone
                        == old(self).bufv()[i].tone || (old(self).bufv()[i].tone == TONE_NONE
                        && final(self).bufv()[i].tone == tval && keys::spec_is_vowel(
                        old(self).bufv()[i].key,
                    ))))
                &&& (exists|i: int|
                    0 <= i < old(self).bufv().len() && old(self).bufv()[i].tone == TONE_NONE && (
                    #[trigger] final(self).bufv()[i]).tone == tval)
                &&& (input::spec_tone_is_horn(old(self).methodv(), key) && spec_has_uo_adjacent(
                    old(self).bufv(),
                ) ==> forall|i: int|
                    0 <= i < old(self).bufv().len() && (old(self).bufv()[i].key == keys::U || old(self).bufv()[i].key == keys::O) && old(self).bufv()[i].tone == TONE_NONE ==> (
                    #[trigger] final(self).bufv()[i]).tone == tval)
                &&& mark_count(final(self).bufv()) == mark_count(old(self).bufv())
            }),
    {
        let m = self.method;
        let tval = input::tone_value(m, key);
        let ghost s0 = self.bufv();
        let n = self.buf.len();
        let mut earliest: usize = n;
        let mut any = false;
        let horn_pair = input::tone_is_horn(m, key) && self.has_uo_adjacent();
        if horn_pair {
            // the horn spreads: every untoned u and o receives it
            assert(input::spec_tone_target(m, key, keys::U) && input::spec_tone_target(
                m,
                key,
                keys::O,
            ));
            let mut i: usize = 0;
            while i < n
                invariant
                    i <= n,
                    self.bufv().len() == n,
                    unchanged_flags(*old(self), *self),
                    self.lastt() == old(self).lastt(),
                    forall|j: int| i <= j < n ==> #[trigger] self.bufv()[j] == s0[j],
                    forall|j: int|
                        0 <= j < i ==> #[trigger] self.bufv()[j] == spec_spread_horn(s0, tval)[j],
                    !any ==> first_horn_target_from(s0, 0) == first_horn_target_from(s0, i as int),
                    any ==> earliest as int == first_horn_target_from(s0, 0),
                    !any ==> self.bufv() == s0 && earliest == n,
                    any ==> earliest < i && s0[earliest as int].tone == TONE_NONE && self.bufv()[
                        earliest as int].tone == tval,
                    any ==> keys::spec_is_vowel(s0[earliest as int].key)
                        && input::spec_tone_target(m, key, s0[earliest as int].key),
                decreases n - i,
            {
                let c = self.buf.get(i);
                if (c.key == keys::U || c.key == keys::O) && c.tone == TONE_NONE {
                    self.buf.set(i, Char { tone: tval, ..c });
                    if !any {
                        earliest = i;
                        any = true;
                    }
                }
                i = i + 1;
            }
            proof {
                if any {
                    assert(self.bufv() =~= spec_spread_horn(s0, tval));
                    assert(spec_horn_spreads(s0, m, key));
                    assert(self.bufv() == tone_applied(s0, m, key));
                    assert(earliest as int == tone_change_start(s0, m, key));
                    lemma_last_eligible_at(s0, m, key, earliest as int);
                    assert forall|j: int| 0 <= j < n implies (#[trigger] self.bufv()[j]).mark
                        == s0[j].mark by {
                        assert(self.bufv()[j] == spec_spread_horn(s0, tval)[j]);
                    }
                    lemma_mark_count_pointwise(self.bufv(), s0);
                    assert(buf_wf(self.bufv()));
                }
            }
        }
        if !any {
            // rightmost eligible vowel without a modifier
            let mut i: usize = n;
            let mut pos: usize = n;
            while i > 0 && pos == n
                invariant
                    0 <= i <= n,
                    pos <= n,
                    self.bufv() == s0,
                    pos == n ==> forall|k: int|
                        i <= k < n ==> !(keys::spec_is_vowel((#[trigger] s0[k]).key)
                            && input::spec_tone_target(m, key, s0[k].key) && s0[k].tone
                            == TONE_NONE),
                    pos < n ==> keys::spec_is_vowel(s0[pos as int].key) && input::spec_tone_target(
                        m,
                        key,
                        s0[pos as int].key,
                    ) && s0[pos as int].tone == TONE_NONE,
                    pos < n ==> forall|k: int|
                        pos < k < n ==> !(keys::spec_is_vowel((#[trigger] s0[k]).key)
                            && input::spec_tone_target(m, key, s0[k].key) && s0[k].tone
                            == TONE_NONE),
                decreases i,
            {
                i = i - 1;
                let c = self.buf.get(i);
                if keys::is_vowel(c.key) && input::tone_target(m, key, c.key) && c.tone
                    == TONE_NONE {
                    pos = i;
                }
            }
            if pos == n {
                proof {
                    lemma_last_eligible_suffix(s0, m, key, 0);
                    assert(s0.take(0) =~= Seq::<Char>::empty());
                    assert(last_eligible(s0, m, key) == -1);
                }
                return None;
            }
            proof {
                lemma_last_eligible_suffix(s0, m, key, pos + 1);
                assert(s0.take(pos + 1).last() == s0[pos as int]);
                assert(s0.take(pos + 1).drop_last() =~= s0.take(pos as int));
                assert(last_eligible(s0, m, key) == pos as int);
            }
            let c = self.buf.get(pos);
            proof {
                lemma_mark_count_update(self.bufv(), pos as int, (Char { tone: tval, ..c }));
            }
            self.buf.set(pos, Char { tone: tval, ..c });
            earliest = pos;
            any = true;
            proof {
                if horn_pair {
                    assert(first_horn_target_from(s0, 0) == -1);
                }
                assert(!spec_horn_spreads(s0, m, key));
                assert(self.bufv() == tone_applied(s0, m, key));
                assert(earliest as int == tone_change_start(s0, m, key));
            }
        }
        let ghost s1 = self.bufv();
        proof {
            assert(s1 == tone_applied(s0, m, key));
            assert(earliest as int == tone_change_start(s0, m, key));
            assert(s0[earliest as int].tone == TONE_NONE);
            assert(s1[earliest as int].tone == tval);
            assert(earliest < n);
            assert(mark_count(s1) == mark_count(s0));
            assert(buf_wf(s1));
        }
        let res = self.finish_tone(key, earliest, Ghost(s0));
        proof {
            let fin = self.bufv();
            assert forall|i: int| 0 <= i < n implies {
                let a = s0[i];
                let b = #[trigger] fin[i];
                &&& b.key == a.key && b.caps == a.caps && b.stroke == a.stroke
                &&& (b.tone == a.tone || (a.tone == TONE_NONE && b.tone == tval
                    && keys::spec_is_vowel(a.key)))
            } by {
                assert(fin[i].key == s1[i].key && fin[i].caps == s1[i].caps && fin[i].stroke
                    == s1[i].stroke && fin[i].tone == s1[i].tone);
            }
            assert(fin[earliest as int].tone == tval);
            assert(mark_count(fin) == mark_count(s0));
        }
        Some(res)
    }

    /// The shared tail of a tone application: record the transform, move the
    /// mark if the cluster changed, and redraw from the earliest change.
    #[verifier::rlimit(100)]
    fn finish_tone(&mut self, key: u16, earliest: usize, Ghost(s0): Ghost<Seq<Char>>) -> (r:
        Result)
        requires
            old(self).wf(),
            keys::spec_is_letter(key),
            input::spec_tone_value(old(self).methodv(), key) != TONE_NONE,
            s0.len() == old(self).bufv().len(),
            old(self).bufv() == tone_applied(s0, old(self).methodv(), key),
            earliest as int == tone_change_start(s0, old(self).methodv(), key),
            earliest < old(self).bufv().len(),
        ensures
            final(self).wf(),
            unchanged_flags(*old(self), *final(self)),
            final(self).lastt() == Some(
                Transform::Tone(key, input::spec_tone_value(old(self).methodv(), key)),
            ),
            final(self).bufv() == spec_reposition(old(self).bufv(), old(self).modernv()),
            final(self).bufv().len() == old(self).bufv().len(),
            mark_count(final(self).bufv()) == mark_count(old(self).bufv()),
            forall|i: int|
                0 <= i < old(self).bufv().len() ==> {
                    let a = old(self).bufv()[i];
                    let b = #[trigger] final(self).bufv()[i];
                    b.key == a.key && b.caps == a.caps && b.stroke == a.stroke && b.tone == a.tone
                },
            r.action == Action::Send,
            r.backspace as int == s0.len() - tone_rebuild_start(
                s0,
                old(self).methodv(),
                key,
                old(self).modernv(),
            ),
            r.backspace as int <= s0.len(),
            r.chars@.len() <= MAX,
            r.chars@ == composed_from(
                final(self).bufv(),
                final(self).bufv().len() - r.backspace,
            ),
    {
        let ghost m = self.methodv();
        let tval = input::tone_value(self.method, key);
        self.last_transform = Some(Transform::Tone(key, tval));
        let ghost s1 = self.bufv();
        let ghost modern = self.modernv();
        let moved = self.reposition_mark_if_needed();
        let rp: usize = match moved {
            Some(op) => if op < earliest {
                op
            } else {
                earliest
            },
            None => earliest,
        };
        proof {
            assert(self.bufv() == spec_reposition(s1, modern));
            assert(s1 == tone_applied(s0, m, key));
            if moved is None {
                assert(spec_reposition(s1, modern) == s1);
            } else {
                assert(spec_reposition(s1, modern) != s1);
                assert(moved == Some(first_marked_from(s1, 0) as usize));
            }
            assert(rp as int == tone_rebuild_start(s0, m, key, modern));
        }
        self.rebuild_from(rp)
    }

    /// After a tone change the cluster may have changed shape: recompute the
    /// mark position and move the mark if it sits elsewhere.  Returns the
    /// mark's old position when it moved.
    fn reposition_mark_if_needed(&mut self) -> (r: Option<usize>)
        requires
            old(self).wf(),
        ensures
            final(self).wf(),
            unchanged_flags(*old(self), *final(self)),
            final(self).lastt() == old(self).lastt(),
            final(self).bufv().len() == old(self).bufv().len(),
            forall|i: int|
                0 <= i < old(self).bufv().len() ==> {
                    let a = old(self).bufv()[i];
                    let b = #[trigger] final(self).bufv()[i];
                    b.key == a.key && b.caps == a.caps && b.stroke == a.stroke && b.tone == a.tone
                },
            mark_count(final(self).bufv()) == mark_count(old(self).bufv()),
            r matches Some(op) ==> op < old(self).bufv().len(),
            final(self).bufv() == spec_reposition(old(self).bufv(), old(self).modernv()),
            r is None <==> spec_reposition(old(self).bufv(), old(self).modernv()) == old(self).bufv(),
            r matches Some(op) ==> op as int == first_marked_from(old(self).bufv(), 0),
            ({
                let om = first_marked_from(old(self).bufv(), 0);
                if om == -1 {
                    r is None && final(self).bufv() == old(self).bufv()
                } else {
                    let vs = spec_vowels(old(self).bufv());
                    if vs.len() == 0 {
                        r is None && final(self).bufv() == old(self).bufv()
                    } else {
                        let np = vowel::spec_find_tone_position(
                            vs,
                            spec_has_final(old(self).bufv(), vs.last().pos as int),
                            old(self).modernv(),
                            spec_has_qu(old(self).bufv()),
                            spec_has_gi(old(self).bufv()),
                        );
                        if np == om {
                            r is None && final(self).bufv() == old(self).bufv()
                        } else {
                            r == Some(om as usize) && final(self).bufv() == old(self).bufv().update(
                                om,
                                (Char { mark: MARK_NONE, ..old(self).bufv()[om] }),
                            ).update(np as int, (Char { mark: old(self).bufv()[om].mark, ..old(self).bufv()[np as int] }))
                        }
                    }
                }
            }),
    {
        let ghost s = self.bufv();
        let n = self.buf.len();
        let om = self.find_first_marked();
        if om == n {
            return None;
        }
        let vs = self.collect_vowels();
        if vs.len() == 0 {
            return None;
        }
        proof {
            lemma_vowels_props(s, 0);
        }
        let lastpos = vs[vs.len() - 1].pos;
        let hf = self.has_final_consonant(lastpos);
        let hq = self.has_qu_initial();
        let hg = self.has_gi_initial();
        let np = vowel::find_tone_position(&vs, hf, self.modern, hq, hg);
        assert(np < n && keys::spec_is_vowel(s[np as int].key));
        if np == om {
            return None;
        }
        let mv = self.buf.get(om).mark;
        let co = self.buf.get(om);
        proof {
            lemma_mark_count_at(s, om as int);
            if s[np as int].mark != MARK_NONE {
                lemma_mark_count_two(s, om as int, np as int);
            }
            lemma_mark_count_update(s, om as int, (Char { mark: MARK_NONE, ..co }));
        }
        self.buf.set(om, Char { mark: MARK_NONE, ..co });
        let cn = self.buf.get(np);
        proof {
            lemma_mark_count_update(self.bufv(), np as int, (Char { mark: mv, ..cn }));
        }
        self.buf.set(np, Char { mark: mv, ..cn });
        proof {
            assert(self.bufv()[om as int].mark == MARK_NONE);
            assert(self.bufv() != s);
        }
        Some(om)
    }

    /// The mark transform: put the tone mark on the vowel the phonology
    /// rules pick.  Any previous mark moves there.  The transform runs only
    /// on a buffer the validator accepts and declines without a vowel.  A
    /// repeated mark key reverts.
    #[verifier::rlimit(100)]
    fn try_mark(&mut self, key: u16, caps: bool) -> (r: Option<Result>)
        requires
            old(self).wf(),
            keys::spec_is_letter(key),
            input::spec_mark_value(old(self).methodv(), key) != MARK_NONE,
        ensures
            final(self).wf(),
            unchanged_flags(*old(self), *final(self)),
            r is None ==> final(self).bufv() == old(self).bufv() && final(self).lastt() == old(self).lastt(),
            old(self).bufv().len() == 0 ==> r is None,
            r is Some <==> mark_applies(old(self).bufv(), old(self).lastt(), key),
            r matches Some(res) ==> mark_outcome(
                old(self).bufv(),
                old(self).lastt(),
                old(self).methodv(),
                old(self).modernv(),
                key,
                caps,
                final(self).bufv(),
                final(self).lastt(),
                res,
            ),
            r matches Some(res) ==> res.action != Action::Restore && res.backspace as int <= old(self).bufv().len() && res.chars@.len() <= MAX + 1,
            spec_mark_revert(old(self).lastt(), key) && old(self).bufv().len() > 0 ==> r is Some
                && final(self).lastt() is None && ({
                let lm = last_marked(old(self).bufv());
                if lm == -1 {
                    final(self).bufv() == old(self).bufv()
                } else {
                    let cleared = old(self).bufv().update(
                        lm,
                        (Char { mark: MARK_NONE, ..old(self).bufv()[lm] }),
                    );
                    &&& final(self).bufv() == (if old(self).bufv().len() < MAX {
                        cleared.push(
                            (Char { key, caps, tone: TONE_NONE, mark: MARK_NONE, stroke: false }),
                        )
                    } else {
                        cleared
                    })
                    &&& (r matches Some(res) ==> res.action == Action::Send && res.backspace
                        as int == old(self).bufv().len() - lm && res.chars@ == capped_chars(
                        composed_from(final(self).bufv(), lm),
                    ))
                }
            }),
            !spec_mark_revert(old(self).lastt(), key) ==> (old(self).bufv().len() > 0
                && spec_valid(keys_of(old(self).bufv())) && spec_vowels(old(self).bufv()).len()
                > 0 ==> r is Some),
            !spec_mark_revert(old(self).lastt(), key) && r is Some ==> ({
                let mval = input::spec_mark_value(old(self).methodv(), key);
                let vs = spec_vowels(old(self).bufv());
                let np = vowel::spec_find_tone_position(
                    vs,
                    spec_has_final(old(self).bufv(), vs.last().pos as int),
                    old(self).modernv(),
                    spec_has_qu(old(self).bufv()),
                    spec_has_gi(old(self).bufv()),
                );
                let om = first_marked_from(old(self).bufv(), 0);
                &&& spec_valid(keys_of(old(self).bufv()))
                &&& vs.len() > 0
                &&& final(self).lastt() == Some(Transform::Mark(key, mval))
                &&& final(self).bufv() == (if om >= 0 && om != np {
                    old(self).bufv().update(
                        om,
                        (Char { mark: MARK_NONE, ..old(self).bufv()[om] }),
                    ).update(np as int, (Char { mark: mval, ..old(self).bufv()[np as int] }))
                } else {
                    old(self).bufv().update(
                        np as int,
                        (Char { mark: mval, ..old(self).bufv()[np as int] }),
                    )
                })
                &&& (r matches Some(res) ==> res.action == Action::Send && res.backspace as int
                    == old(self).bufv().len() - (if om >= 0 && om < np {
                    om
                } else {
                    np as int
                }) && res.chars@ == composed_from(
                    final(self).bufv(),
                    (if om >= 0 && om < np {
                        om
                    } else {
                        np as int
                    }),
                ))
            }),
    {
        if self.buf.is_empty() {
            return None;
        }
        let revert = match self.last_transform {
            Some(Transform::Mark(k, _)) => k == key,
            _ => false,
        };
        if revert {
            return Some(self.revert_mark(key, caps));
        }
        let ks = self.buf.keys();
        if !is_valid(&ks) {
            return None;
        }
        let ghost s = self.bufv();
        let n = self.buf.len();
        let vs = self.collect_vowels();
        if vs.len() == 0 {
            return None;
        }
        proof {
            lemma_vowels_props(s, 0);
        }
        let mval = input::mark_value(self.method, key);
        let lastpos = vs[vs.len() - 1].pos;
        let hf = self.has_final_consonant(lastpos);
        let hq = self.has_qu_initial();
        let hg = self.has_gi_initial();
        let np = vowel::find_tone_position(&vs, hf, self.modern, hq, hg);
        assert(np < n && keys::spec_is_vowel(s[np as int].key));
        let om = self.find_first_marked();
        let mut rp: usize = np;
        if om < n {
            if om != np {
                let co = self.buf.get(om);
                proof {
                    lemma_mark_count_update(s, om as int, (Char { mark: MARK_NONE, ..co }));
                }
                self.buf.set(om, Char { mark: MARK_NONE, ..co });
                if om < np {
                    rp = om;
                }
            }
        } else {
            assert(first_marked_from(s, 0) == -1);
        }
        let cn = self.buf.get(np);
        proof {
            lemma_mark_count_update(self.bufv(), np as int, (Char { mark: mval, ..cn }));
            if first_marked_from(s, 0) >= 0 {
                lemma_first_marked_found(s, first_marked_from(s, 0));
            } else {
                lemma_no_mark_zero(s);
            }
        }
        self.buf.set(np, Char { mark: mval, ..cn });
        self.last_transform = Some(Transform::Mark(key, mval));
        let res = self.rebuild_from(rp);
        Some(res)
    }

    /// Telex `w` as the vowel u-horn: speculatively append it, keep it when
    /// the validator accepts the word, and take it back otherwise.  A second
    /// `w` right after reverts to the literal `ww`.
    fn try_w_as_vowel(&mut self, caps: bool) -> (r: Option<Result>)
        requires
            old(self).wf(),
        ensures
            final(self).wf(),
            unchanged_flags(*old(self), *final(self)),
            r is None ==> final(self).bufv() == old(self).bufv(),
            r is Some <==> w_applies(old(self).bufv(), old(self).lastt()),
            r matches Some(res) ==> w_outcome(
                old(self).bufv(),
                old(self).lastt(),
                caps,
                final(self).bufv(),
                final(self).lastt(),
                res,
            ),
            r matches Some(res) ==> res.action == Action::Send && res.backspace as int <= old(self).bufv().len() && res.chars@.len() <= MAX + 1,
            old(self).lastt() == Some(Transform::WAsVowel) ==> final(self).lastt() is None && ({
                if old(self).bufv().len() == 0 {
                    r is None
                } else {
                    let d = old(self).bufv().drop_last();
                    let w1 = (Char {
                        key: keys::W,
                        caps: old(self).bufv().last().caps,
                        tone: TONE_NONE,
                        mark: MARK_NONE,
                        stroke: false,
                    });
                    let w2 = (Char {
                        key: keys::W,
                        caps,
                        tone: TONE_NONE,
                        mark: MARK_NONE,
                        stroke: false,
                    });
                    &&& r is Some
                    &&& final(self).bufv() == (if old(self).bufv().len() < MAX {
                        d.push(w1).push(w2)
                    } else {
                        d.push(w1)
                    })
                    &&& (r matches Some(res) ==> res.backspace == 1 && res.chars@ == seq![
                        (if old(self).bufv().last().caps {
                            'W'
                        } else {
                            'w'
                        }),
                        (if caps {
                            'W'
                        } else {
                            'w'
                        }),
                    ])
                }
            }),
            old(self).lastt() != Some(Transform::WAsVowel) ==> ({
                let rec = (Char {
                    key: keys::U,
                    caps,
                    tone: TONE_HORN,
                    mark: MARK_NONE,
                    stroke: false,
                });
                &&& (r is Some ==> final(self).bufv() == old(self).bufv().push(rec) && final(self).lastt() == Some(Transform::WAsVowel) && spec_valid(keys_of(final(self).bufv()))
                    && (r matches Some(res) ==> res.backspace == 0 && res.chars@ == seq![
                    spec_composed(rec),
                ]))
                &&& (r is None ==> final(self).lastt() == old(self).lastt())
                &&& (old(self).bufv().len() < MAX && spec_valid(keys_of(old(self).bufv()).push(
                    keys::U,
                )) ==> r is Some)
            }),
    {
        let ghost s = self.bufv();
        let revert = match self.last_transform {
            Some(Transform::WAsVowel) => true,
            _ => false,
        };
        if revert {
            self.last_transform = None;
            let n = self.buf.len();
            if n == 0 {
                return None;
            }
            let lastc = self.buf.get(n - 1);
            proof {
                lemma_mark_count_drop_last(s);
            }
            self.buf.pop();
            let w1 = Char::new(keys::W, lastc.caps);
            proof {
                lemma_mark_count_push(self.bufv(), w1);
            }
            self.buf.push(w1);
            let w2 = Char::new(keys::W, caps);
            proof {
                lemma_mark_count_push(self.bufv(), w2);
            }
            self.buf.push(w2);
            let c1 = if lastc.caps {
                'W'
            } else {
                'w'
            };
            let c2 = if caps {
                'W'
            } else {
                'w'
            };
            let mut cs: Vec<char> = Vec::new();
            cs.push(c1);
            cs.push(c2);
            proof {
                assert(cs@ =~= seq![c1, c2]);
            }
            return Some(Result::send(1, cs));
        }
        if self.buf.len() >= MAX {
            return None;
        }
        let rec = Char { key: keys::U, caps, tone: TONE_HORN, mark: MARK_NONE, stroke: false };
        proof {
            lemma_mark_count_push(s, rec);
        }
        self.buf.push(rec);
        proof {
            assert(keys_of(self.bufv()) =~= keys_of(s).push(keys::U));
        }
        let ks = self.buf.keys();
        if is_valid(&ks) {
            self.last_transform = Some(Transform::WAsVowel);
            let ch = composed_char(rec);
            let mut cs: Vec<char> = Vec::new();
            cs.push(ch);
            proof {
                assert(cs@ =~= seq![spec_composed(rec)]);
            }
            return Some(Result::send(0, cs));
        }
        proof {
            lemma_mark_count_drop_last(self.bufv());
        }
        self.buf.pop();
        proof {
            assert(self.bufv() =~= s);
        }
        None
    }
}

/// The record at the first-marked index carries a mark.
proof fn lemma_first_marked_found(s: Seq<Char>, f: int)
    requires
        first_marked_from(s, 0) == f,
        f >= 0,
    ensures
        0 <= f < s.len() && s[f].mark != MARK_NONE,
{
    lemma_first_marked_bounds(s, 0);
}

proof fn lemma_first_marked_bounds(s: Seq<Char>, i: int)
    requires
        0 <= i <= s.len(),
    ensures
        -1 <= first_marked_from(s, i) < s.len(),
        first_marked_from(s, i) >= 0 ==> first_marked_from(s, i) >= i && s[first_marked_from(
            s,
            i,
        )].mark != MARK_NONE,
        first_marked_from(s, i) == -1 ==> forall|k: int|
            i <= k < s.len() ==> #[trigger] s[k].mark == MARK_NONE,
    decreases s.len() - i,
{
    if i < s.len() && s[i].mark == MARK_NONE {
        lemma_first_marked_bounds(s, i + 1);
    }
}

/// A buffer whose first-marked scan finds nothing has mark count zero.
proof fn lemma_no_mark_zero(s: Seq<Char>)
    requires
        first_marked_from(s, 0) == -1,
    ensures
        mark_count(s) == 0,
{
    lemma_first_marked_bounds(s, 0);
    lemma_mark_count_zero(s);
}

/// The composed character a record displays as.
fn composed_char(c: Char) -> (r: char)
    ensures
        r == spec_composed(c),
{
    if c.key == keys::D && c.stroke {
        chars::get_d(c.caps)
    } else {
        match chars::to_char(c.key, c.caps, c.tone, c.mark) {
            Some(ch) => ch,
            None => match key_to_char(c.key, c.caps) {
                Some(ch) => ch,
                None => '?',
            },
        }
    }
}

/// Vowels without a tone beyond `m` do not move the rightmost-toned index.
proof fn lemma_last_toned_suffix(s: Seq<Char>, m: int)
    requires
        0 <= m <= s.len(),
        forall|k: int|
            m <= k < s.len() ==> !(keys::spec_is_vowel((#[trigger] s[k]).key) && s[k].tone
                != TONE_NONE),
    ensures
        last_toned(s) == last_toned(s.take(m)),
    decreases s.len() - m,
{
    if m < s.len() {
        assert(s.drop_last() =~= s.take(s.len() - 1));
        lemma_last_toned_suffix(s.take(s.len() - 1), m);
        assert(s.take(s.len() - 1).take(m) =~= s.take(m));
    } else {
        assert(s.take(m) =~= s);
    }
}

/// Vowels without a mark beyond `m` do not move the rightmost-marked index.
proof fn lemma_last_marked_suffix(s: Seq<Char>, m: int)
    requires
        0 <= m <= s.len(),
        forall|k: int|
            m <= k < s.len() ==> !(keys::spec_is_vowel((#[trigger] s[k]).key) && s[k].mark
                != MARK_NONE),
    ensures
        last_marked(s) == last_marked(s.take(m)),
    decreases s.len() - m,
{
    if m < s.len() {
        assert(s.drop_last() =~= s.take(s.len() - 1));
        lemma_last_marked_suffix(s.take(s.len() - 1), m);
        assert(s.take(s.len() - 1).take(m) =~= s.take(m));
    } else {
        assert(s.take(m) =~= s);
    }
}

/// Law: a successful tone transform writes the modifier only to vowels that
/// carried none, so no vowel ever accumulates two tone modifiers and
/// consonants never gain one.
pub proof fn law_tone_writes_only_untoned_vowels(s: Seq<Char>, method: u8, key: u16)
    requires
        buf_wf(s),
        input::spec_tone_value(method, key) != TONE_NONE,
        spec_horn_spreads(s, method, key) || last_eligible(s, method, key) >= 0,
    ensures
        ({
            let t = tone_applied(s, method, key);
            &&& t.len() == s.len()
            &&& forall|i: int|
                0 <= i < s.len() ==> ((#[trigger] t[i]).tone == s[i].tone || (s[i].tone
                    == TONE_NONE && keys::spec_is_vowel(s[i].key)))
            &&& forall|i: int|
                0 <= i < s.len() && !keys::spec_is_vowel((#[trigger] s[i]).key) ==> t[i].tone
                    == TONE_NONE
        }),
{
    lemma_last_eligible_bounds(s, method, key);
    let t = tone_applied(s, method, key);
    assert forall|i: int|
        0 <= i < s.len() implies ((#[trigger] t[i]).tone == s[i].tone || (s[i].tone == TONE_NONE
        && keys::spec_is_vowel(s[i].key))) by {
        assert(char_wf(s[i]));
        if spec_horn_spreads(s, method, key) {
            assert(t[i] == spec_spread_horn(s, input::spec_tone_value(method, key))[i]);
        }
    }
    assert forall|i: int|
        0 <= i < s.len() && !keys::spec_is_vowel((#[trigger] s[i]).key) implies t[i].tone
        == TONE_NONE by {
        assert(char_wf(s[i]));
        if spec_horn_spreads(s, method, key) {
            assert(t[i] == spec_spread_horn(s, input::spec_tone_value(method, key))[i]);
        }
    }
}

/// Law: applying a tone modifier and pressing the same key again restores
/// the original buffer records and appends the literal modifier key.
///
/// The first press puts `v` on the untoned vowel at `pos`; the second press
/// clears the rightmost toned vowel — which is that same vowel as long as no
/// toned vowel stands to its right — and appends a fresh record for the key.
/// (With a toned vowel right of `pos`, as after a horn that spread over a
/// pair, the second press clears that vowel instead and the law does not
/// apply.)
pub proof fn law_tone_double_reverts(s: Seq<Char>, pos: int, v: u8, key: u16, caps: bool)
    requires
        buf_wf(s),
        0 <= pos < s.len(),
        s.len() < MAX,
        keys::spec_is_vowel(s[pos].key),
        s[pos].tone == TONE_NONE,
        v != TONE_NONE,
        forall|j: int|
            pos < j < s.len() ==> !(keys::spec_is_vowel((#[trigger] s[j]).key) && s[j].tone
                != TONE_NONE),
    ensures
        ({
            let applied = s.update(pos, (Char { tone: v, ..s[pos] }));
            let w = (Char { key, caps, tone: TONE_NONE, mark: MARK_NONE, stroke: false });
            &&& last_toned(applied) == pos
            &&& applied.update(pos, (Char { tone: TONE_NONE, ..applied[pos] })).push(w) == s.push(
                w,
            )
        }),
{
    let applied = s.update(pos, (Char { tone: v, ..s[pos] }));
    assert forall|k: int|
        pos + 1 <= k < applied.len() implies !(keys::spec_is_vowel((#[trigger] applied[k]).key)
        && applied[k].tone != TONE_NONE) by {
        assert(applied[k] == s[k]);
    }
    lemma_last_toned_suffix(applied, pos + 1);
    assert(applied.take(pos + 1).last() == applied[pos]);
    assert(applied.take(pos + 1).drop_last() =~= applied.take(pos));
    assert(last_toned(applied) == pos);
    let w = (Char { key, caps, tone: TONE_NONE, mark: MARK_NONE, stroke: false });
    assert(applied.update(pos, (Char { tone: TONE_NONE, ..applied[pos] })) =~= s);
    assert(applied.update(pos, (Char { tone: TONE_NONE, ..applied[pos] })).push(w) =~= s.push(w));
}

/// Law: applying a tone mark to an unmarked buffer and pressing the same
/// key again restores the original records and appends the literal key.
///
/// The first press puts `m` on the vowel the phonology rules picked at
/// `pos`; since the buffer holds no other mark, the second press clears
/// exactly that vowel and appends a fresh record for the key.
pub proof fn law_mark_double_reverts(s: Seq<Char>, pos: int, m: u8, key: u16, caps: bool)
    requires
        buf_wf(s),
        mark_count(s) == 0,
        0 <= pos < s.len(),
        s.len() < MAX,
        keys::spec_is_vowel(s[pos].key),
        m != MARK_NONE,
    ensures
        ({
            let applied = s.update(pos, (Char { mark: m, ..s[pos] }));
            let w = (Char { key, caps, tone: TONE_NONE, mark: MARK_NONE, stroke: false });
            &&& last_marked(applied) == pos
            &&& applied.update(pos, (Char { mark: MARK_NONE, ..applied[pos] })).push(w) == s.push(
                w,
            )
        }),
{
    let applied = s.update(pos, (Char { mark: m, ..s[pos] }));
    assert forall|k: int|
        pos + 1 <= k < applied.len() implies !(keys::spec_is_vowel((#[trigger] applied[k]).key)
        && applied[k].mark != MARK_NONE) by {
        assert(applied[k] == s[k]);
        if s[k].mark != MARK_NONE {
            lemma_mark_count_at(s, k);
        }
    }
    lemma_last_marked_suffix(applied, pos + 1);
    assert(applied.take(pos + 1).last() == applied[pos]);
    assert(applied.take(pos + 1).drop_last() =~= applied.take(pos));
    assert(last_marked(applied) == pos);
    let w = (Char { key, caps, tone: TONE_NONE, mark: MARK_NONE, stroke: false });
    if s[pos].mark != MARK_NONE {
        lemma_mark_count_at(s, pos);
    }
    assert(applied.update(pos, (Char { mark: MARK_NONE, ..applied[pos] })) =~= s);
    assert(applied.update(pos, (Char { mark: MARK_NONE, ..applied[pos] })).push(w) =~= s.push(w));
}

/// Law: taking a Telex `w` as the vowel u-horn and pressing `w` again
/// leaves the original records plus the two literal `w` keys.
///
/// The apply step pushes the speculative u-horn record; the revert step
/// drops the last record and pushes the two literal keys, so the pair of
/// keystrokes amounts to typing `ww` as plain letters.
pub proof fn law_w_as_vowel_reverts(s: Seq<Char>, caps1: bool, caps2: bool)
    requires
        buf_wf(s),
        s.len() + 1 < MAX,
    ensures
        ({
            let urec = (Char {
                key: keys::U,
                caps: caps1,
                tone: TONE_HORN,
                mark: MARK_NONE,
                stroke: false,
            });
            let w1 = (Char {
                key: keys::W,
                caps: caps1,
                tone: TONE_NONE,
                mark: MARK_NONE,
                stroke: false,
            });
            let w2 = (Char {
                key: keys::W,
                caps: caps2,
                tone: TONE_NONE,
                mark: MARK_NONE,
                stroke: false,
            });
            s.push(urec).drop_last().push(w1).push(w2) == s.push(w1).push(w2)
        }),
{
    let urec = (Char {
        key: keys::U,
        caps: caps1,
        tone: TONE_HORN,
        mark: MARK_NONE,
        stroke: false,
    });
    assert(s.push(urec).drop_last() =~= s);
}

/// The engine's configuration and rules are untouched.
pub open spec fn unchanged_flags(a: Engine, b: Engine) -> bool {
    &&& a.enabledv() == b.enabledv()
    &&& a.methodv() == b.methodv()
    &&& a.modernv() == b.modernv()
    &&& a.shortcutsv() == b.shortcutsv()
}

/// Dropping the last record removes at most its own mark.
pub proof fn lemma_mark_count_drop_last(s: Seq<Char>)
    requires
        s.len() > 0,
    ensures
        mark_count(s.drop_last()) <= mark_count(s),
{
    lemma_mark_count_nonneg(s.drop_last());
}

} // verus!
