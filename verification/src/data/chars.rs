//! Character composition.
//!
//! A buffer record holds a key code, a case flag, a tone modifier and a tone
//! mark.  This module turns such a record into the single precomposed
//! Vietnamese character that the host displays: the tone modifier selects the
//! base vowel form, the mark selects one of its five marked variants, and the
//! case flag selects the upper-case letter.

use vstd::prelude::*;

use crate::data::keys;

verus! {

/// No tone modifier on a vowel.
pub const TONE_NONE: u8 = 0;

/// The circumflex modifier: a, e, o become a-circumflex, e-circumflex,
/// o-circumflex.
pub const TONE_CIRCUMFLEX: u8 = 1;

/// The horn modifier on o and u, and the breve on a (both share one value).
pub const TONE_HORN: u8 = 2;

/// No tone mark.
pub const MARK_NONE: u8 = 0;

/// The acute mark (sac).
pub const MARK_ACUTE: u8 = 1;

/// The grave mark (huyen).
pub const MARK_GRAVE: u8 = 2;

/// The hook-above mark (hoi).
pub const MARK_HOOK: u8 = 3;

/// The tilde mark (nga).
pub const MARK_TILDE: u8 = 4;

/// The dot-below mark (nang).
pub const MARK_DOT: u8 = 5;

/// The base vowel form selected by a vowel key and its tone modifier.
pub open spec fn spec_base_char(key: u16, tone: u8) -> Option<char> {
    match key {
        keys::A => Some(if tone == TONE_CIRCUMFLEX { 'â' } else if tone == TONE_HORN { 'ă' } else { 'a' }),
        keys::E => Some(if tone == TONE_CIRCUMFLEX { 'ê' } else if tone == TONE_HORN { 'e' } else { 'e' }),
        keys::I => Some(if tone == TONE_CIRCUMFLEX { 'i' } else if tone == TONE_HORN { 'i' } else { 'i' }),
        keys::O => Some(if tone == TONE_CIRCUMFLEX { 'ô' } else if tone == TONE_HORN { 'ơ' } else { 'o' }),
        keys::U => Some(if tone == TONE_CIRCUMFLEX { 'u' } else if tone == TONE_HORN { 'ư' } else { 'u' }),
        keys::Y => Some(if tone == TONE_CIRCUMFLEX { 'y' } else if tone == TONE_HORN { 'y' } else { 'y' }),
        _ => None,
    }
}

/// The marked variant of a base vowel form.
pub open spec fn spec_apply_mark(base: char, mark: u8) -> char {
    match base {
        'a' => if mark == MARK_ACUTE { 'á' } else if mark == MARK_GRAVE { 'à' } else if mark == MARK_HOOK { 'ả' } else if mark == MARK_TILDE { 'ã' } else if mark == MARK_DOT { 'ạ' } else { base },
        'ă' => if mark == MARK_ACUTE { 'ắ' } else if mark == MARK_GRAVE { 'ằ' } else if mark == MARK_HOOK { 'ẳ' } else if mark == MARK_TILDE { 'ẵ' } else if mark == MARK_DOT { 'ặ' } else { base },
        'â' => if mark == MARK_ACUTE { 'ấ' } else if mark == MARK_GRAVE { 'ầ' } else if mark == MARK_HOOK { 'ẩ' } else if mark == MARK_TILDE { 'ẫ' } else if mark == MARK_DOT { 'ậ' } else { base },
        'e' => if mark == MARK_ACUTE { 'é' } else if mark == MARK_GRAVE { 'è' } else if mark == MARK_HOOK { 'ẻ' } else if mark == MARK_TILDE { 'ẽ' } else if mark == MARK_DOT { 'ẹ' } else { base },
        'ê' => if mark == MARK_ACUTE { 'ế' } else if mark == MARK_GRAVE { 'ề' } else if mark == MARK_HOOK { 'ể' } else if mark == MARK_TILDE { 'ễ' } else if mark == MARK_DOT { 'ệ' } else { base },
        'i' => if mark == MARK_ACUTE { 'í' } else if mark == MARK_GRAVE { 'ì' } else if mark == MARK_HOOK { 'ỉ' } else if mark == MARK_TILDE { 'ĩ' } else if mark == MARK_DOT { 'ị' } else { base },
        'o' => if mark == MARK_ACUTE { 'ó' } else if mark == MARK_GRAVE { 'ò' } else if mark == MARK_HOOK { 'ỏ' } else if mark == MARK_TILDE { 'õ' } else if mark == MARK_DOT { 'ọ' } else { base },
        'ô' => if mark == MARK_ACUTE { 'ố' } else if mark == MARK_GRAVE { 'ồ' } else if mark == MARK_HOOK { 'ổ' } else if mark == MARK_TILDE { 'ỗ' } else if mark == MARK_DOT { 'ộ' } else { base },
        'ơ' => if mark == MARK_ACUTE { 'ớ' } else if mark == MARK_GRAVE { 'ờ' } else if mark == MARK_HOOK { 'ở' } else if mark == MARK_TILDE { 'ỡ' } else if mark == MARK_DOT { 'ợ' } else { base },
        'u' => if mark == MARK_ACUTE { 'ú' } else if mark == MARK_GRAVE { 'ù' } else if mark == MARK_HOOK { 'ủ' } else if mark == MARK_TILDE { 'ũ' } else if mark == MARK_DOT { 'ụ' } else { base },
        'ư' => if mark == MARK_ACUTE { 'ứ' } else if mark == MARK_GRAVE { 'ừ' } else if mark == MARK_HOOK { 'ử' } else if mark == MARK_TILDE { 'ữ' } else if mark == MARK_DOT { 'ự' } else { base },
        'y' => if mark == MARK_ACUTE { 'ý' } else if mark == MARK_GRAVE { 'ỳ' } else if mark == MARK_HOOK { 'ỷ' } else if mark == MARK_TILDE { 'ỹ' } else if mark == MARK_DOT { 'ỵ' } else { base },
        _ => base,
    }
}

/// The upper-case form of a (possibly composed) Vietnamese vowel character.
pub open spec fn spec_upper(ch: char) -> char {
    match ch {
        'a' => 'A',
        'e' => 'E',
        'i' => 'I',
        'o' => 'O',
        'u' => 'U',
        'y' => 'Y',
        'à' => 'À',
        'á' => 'Á',
        'â' => 'Â',
        'ã' => 'Ã',
        'è' => 'È',
        'é' => 'É',
        'ê' => 'Ê',
        'ì' => 'Ì',
        'í' => 'Í',
        'ò' => 'Ò',
        'ó' => 'Ó',
        'ô' => 'Ô',
        'õ' => 'Õ',
        'ù' => 'Ù',
        'ú' => 'Ú',
        'ý' => 'Ý',
        'ă' => 'Ă',
        'ĩ' => 'Ĩ',
        'ũ' => 'Ũ',
        'ơ' => 'Ơ',
        'ư' => 'Ư',
        'ạ' => 'Ạ',
        'ả' => 'Ả',
        'ấ' => 'Ấ',
        'ầ' => 'Ầ',
        'ẩ' => 'Ẩ',
        'ẫ' => 'Ẫ',
        'ậ' => 'Ậ',
        'ắ' => 'Ắ',
        'ằ' => 'Ằ',
        'ẳ' => 'Ẳ',
        'ẵ' => 'Ẵ',
        'ặ' => 'Ặ',
        'ẹ' => 'Ẹ',
        'ẻ' => 'Ẻ',
        'ẽ' => 'Ẽ',
        'ế' => 'Ế',
        'ề' => 'Ề',
        'ể' => 'Ể',
        'ễ' => 'Ễ',
        'ệ' => 'Ệ',
        'ỉ' => 'Ỉ',
        'ị' => 'Ị',
        'ọ' => 'Ọ',
        'ỏ' => 'Ỏ',
        'ố' => 'Ố',
        'ồ' => 'Ồ',
        'ổ' => 'Ổ',
        'ỗ' => 'Ỗ',
        'ộ' => 'Ộ',
        'ớ' => 'Ớ',
        'ờ' => 'Ờ',
        'ở' => 'Ở',
        'ỡ' => 'Ỡ',
        'ợ' => 'Ợ',
        'ụ' => 'Ụ',
        'ủ' => 'Ủ',
        'ứ' => 'Ứ',
        'ừ' => 'Ừ',
        'ử' => 'Ử',
        'ữ' => 'Ữ',
        'ự' => 'Ự',
        'ỳ' => 'Ỳ',
        'ỵ' => 'Ỵ',
        'ỷ' => 'Ỷ',
        'ỹ' => 'Ỹ',
        _ => ch,
    }
}

/// The composed character for a vowel key with the given case, tone modifier
/// and mark, or the plain d/D for the `D` key; `None` for any other key.
pub open spec fn spec_to_char(key: u16, caps: bool, tone: u8, mark: u8) -> Option<char> {
    if key == keys::D {
        Some(if caps { 'D' } else { 'd' })
    } else {
        match spec_base_char(key, tone) {
            Some(base) => {
                let marked = spec_apply_mark(base, mark);
                Some(if caps { spec_upper(marked) } else { marked })
            },
            None => None,
        }
    }
}

/// Base vowel form from key and tone modifier.
fn get_base_char(key: u16, tone: u8) -> (r: Option<char>)
    ensures
        r == spec_base_char(key, tone),
{
    match key {
        keys::A => Some(if tone == TONE_CIRCUMFLEX { 'â' } else if tone == TONE_HORN { 'ă' } else { 'a' }),
        keys::E => Some(if tone == TONE_CIRCUMFLEX { 'ê' } else if tone == TONE_HORN { 'e' } else { 'e' }),
        keys::I => Some(if tone == TONE_CIRCUMFLEX { 'i' } else if tone == TONE_HORN { 'i' } else { 'i' }),
        keys::O => Some(if tone == TONE_CIRCUMFLEX { 'ô' } else if tone == TONE_HORN { 'ơ' } else { 'o' }),
        keys::U => Some(if tone == TONE_CIRCUMFLEX { 'u' } else if tone == TONE_HORN { 'ư' } else { 'u' }),
        keys::Y => Some(if tone == TONE_CIRCUMFLEX { 'y' } else if tone == TONE_HORN { 'y' } else { 'y' }),
        _ => None,
    }
}

/// Marked variant of a base vowel form.
fn apply_mark(base: char, mark: u8) -> (r: char)
    ensures
        r == spec_apply_mark(base, mark),
{
    match base {
        'a' => if mark == MARK_ACUTE { 'á' } else if mark == MARK_GRAVE { 'à' } else if mark == MARK_HOOK { 'ả' } else if mark == MARK_TILDE { 'ã' } else if mark == MARK_DOT { 'ạ' } else { base },
        'ă' => if mark == MARK_ACUTE { 'ắ' } else if mark == MARK_GRAVE { 'ằ' } else if mark == MARK_HOOK { 'ẳ' } else if mark == MARK_TILDE { 'ẵ' } else if mark == MARK_DOT { 'ặ' } else { base },
        'â' => if mark == MARK_ACUTE { 'ấ' } else if mark == MARK_GRAVE { 'ầ' } else if mark == MARK_HOOK { 'ẩ' } else if mark == MARK_TILDE { 'ẫ' } else if mark == MARK_DOT { 'ậ' } else { base },
        'e' => if mark == MARK_ACUTE { 'é' } else if mark == MARK_GRAVE { 'è' } else if mark == MARK_HOOK { 'ẻ' } else if mark == MARK_TILDE { 'ẽ' } else if mark == MARK_DOT { 'ẹ' } else { base },
        'ê' => if mark == MARK_ACUTE { 'ế' } else if mark == MARK_GRAVE { 'ề' } else if mark == MARK_HOOK { 'ể' } else if mark == MARK_TILDE { 'ễ' } else if mark == MARK_DOT { 'ệ' } else { base },
        'i' => if mark == MARK_ACUTE { 'í' } else if mark == MARK_GRAVE { 'ì' } else if mark == MARK_HOOK { 'ỉ' } else if mark == MARK_TILDE { 'ĩ' } else if mark == MARK_DOT { 'ị' } else { base },
        'o' => if mark == MARK_ACUTE { 'ó' } else if mark == MARK_GRAVE { 'ò' } else if mark == MARK_HOOK { 'ỏ' } else if mark == MARK_TILDE { 'õ' } else if mark == MARK_DOT { 'ọ' } else { base },
        'ô' => if mark == MARK_ACUTE { 'ố' } else if mark == MARK_GRAVE { 'ồ' } else if mark == MARK_HOOK { 'ổ' } else if mark == MARK_TILDE { 'ỗ' } else if mark == MARK_DOT { 'ộ' } else { base },
        'ơ' => if mark == MARK_ACUTE { 'ớ' } else if mark == MARK_GRAVE { 'ờ' } else if mark == MARK_HOOK { 'ở' } else if mark == MARK_TILDE { 'ỡ' } else if mark == MARK_DOT { 'ợ' } else { base },
        'u' => if mark == MARK_ACUTE { 'ú' } else if mark == MARK_GRAVE { 'ù' } else if mark == MARK_HOOK { 'ủ' } else if mark == MARK_TILDE { 'ũ' } else if mark == MARK_DOT { 'ụ' } else { base },
        'ư' => if mark == MARK_ACUTE { 'ứ' } else if mark == MARK_GRAVE { 'ừ' } else if mark == MARK_HOOK { 'ử' } else if mark == MARK_TILDE { 'ữ' } else if mark == MARK_DOT { 'ự' } else { base },
        'y' => if mark == MARK_ACUTE { 'ý' } else if mark == MARK_GRAVE { 'ỳ' } else if mark == MARK_HOOK { 'ỷ' } else if mark == MARK_TILDE { 'ỹ' } else if mark == MARK_DOT { 'ỵ' } else { base },
        _ => base,
    }
}

/// Upper-case form of a composed vowel character.
fn to_upper(ch: char) -> (r: char)
    ensures
        r == spec_upper(ch),
{
    match ch {
        'a' => 'A',
        'e' => 'E',
        'i' => 'I',
        'o' => 'O',
        'u' => 'U',
        'y' => 'Y',
        'à' => 'À',
        'á' => 'Á',
        'â' => 'Â',
        'ã' => 'Ã',
        'è' => 'È',
        'é' => 'É',
        'ê' => 'Ê',
        'ì' => 'Ì',
        'í' => 'Í',
        'ò' => 'Ò',
        'ó' => 'Ó',
        'ô' => 'Ô',
        'õ' => 'Õ',
        'ù' => 'Ù',
        'ú' => 'Ú',
        'ý' => 'Ý',
        'ă' => 'Ă',
        'ĩ' => 'Ĩ',
        'ũ' => 'Ũ',
        'ơ' => 'Ơ',
        'ư' => 'Ư',
        'ạ' => 'Ạ',
        'ả' => 'Ả',
        'ấ' => 'Ấ',
        'ầ' => 'Ầ',
        'ẩ' => 'Ẩ',
        'ẫ' => 'Ẫ',
        'ậ' => 'Ậ',
        'ắ' => 'Ắ',
        'ằ' => 'Ằ',
        'ẳ' => 'Ẳ',
        'ẵ' => 'Ẵ',
        'ặ' => 'Ặ',
        'ẹ' => 'Ẹ',
        'ẻ' => 'Ẻ',
        'ẽ' => 'Ẽ',
        'ế' => 'Ế',
        'ề' => 'Ề',
        'ể' => 'Ể',
        'ễ' => 'Ễ',
        'ệ' => 'Ệ',
        'ỉ' => 'Ỉ',
        'ị' => 'Ị',
        'ọ' => 'Ọ',
        'ỏ' => 'Ỏ',
        'ố' => 'Ố',
        'ồ' => 'Ồ',
        'ổ' => 'Ổ',
        'ỗ' => 'Ỗ',
        'ộ' => 'Ộ',
        'ớ' => 'Ớ',
        'ờ' => 'Ờ',
        'ở' => 'Ở',
        'ỡ' => 'Ỡ',
        'ợ' => 'Ợ',
        'ụ' => 'Ụ',
        'ủ' => 'Ủ',
        'ứ' => 'Ứ',
        'ừ' => 'Ừ',
        'ử' => 'Ử',
        'ữ' => 'Ữ',
        'ự' => 'Ự',
        'ỳ' => 'Ỳ',
        'ỵ' => 'Ỵ',
        'ỷ' => 'Ỷ',
        'ỹ' => 'Ỹ',
        _ => ch,
    }
}

/// Convert a key with its annotations to the composed character.
pub fn to_char(key: u16, caps: bool, tone: u8, mark: u8) -> (r: Option<char>)
    ensures
        r == spec_to_char(key, caps, tone, mark),
{
    if key == keys::D {
        return Some(if caps { 'D' } else { 'd' });
    }
    match get_base_char(key, tone) {
        Some(base) => {
            let marked = apply_mark(base, mark);
            Some(if caps { to_upper(marked) } else { marked })
        },
        None => None,
    }
}

/// The stroked letter d (d with stroke), in the requested case.
pub open spec fn spec_get_d(caps: bool) -> char {
    if caps { 'Đ' } else { 'đ' }
}

/// The stroked letter d, in the requested case.
pub fn get_d(caps: bool) -> (r: char)
    ensures
        r == spec_get_d(caps),
{
    if caps { 'Đ' } else { 'đ' }
}

} // verus!
