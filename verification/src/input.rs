//! Input-method tables for Telex and VNI.
//!
//! For each method these functions say which keys act as the stroke, as a
//! tone modifier (and which vowels it targets), as a tone mark, and as the
//! remove key.  Method 0 is Telex, method 1 is VNI; reserved method numbers
//! fall back to the Telex table.

use vstd::prelude::*;

use crate::data::chars::{
    MARK_ACUTE, MARK_DOT, MARK_GRAVE, MARK_HOOK, MARK_NONE, MARK_TILDE, TONE_CIRCUMFLEX,
    TONE_HORN, TONE_NONE,
};
use crate::data::keys;

verus! {

/// The Telex method number.
pub const TELEX: u8 = 0;

/// The VNI method number.
pub const VNI: u8 = 1;

/// Whether `key` asks for the stroke transform (d to d-with-stroke).
pub open spec fn spec_stroke_key(method: u8, key: u16) -> bool {
    if method == VNI {
        key == keys::N9
    } else {
        key == keys::D
    }
}

/// The tone-modifier value `key` applies, or `TONE_NONE` when `key` is no
/// tone modifier.  The breve (VNI `8`, Telex `w` on `a`) shares the horn
/// value.
pub open spec fn spec_tone_value(method: u8, key: u16) -> u8 {
    if method == VNI {
        if key == keys::N6 {
            TONE_CIRCUMFLEX
        } else if key == keys::N7 || key == keys::N8 {
            TONE_HORN
        } else {
            TONE_NONE
        }
    } else {
        if key == keys::A || key == keys::E || key == keys::O {
            TONE_CIRCUMFLEX
        } else if key == keys::W {
            TONE_HORN
        } else {
            TONE_NONE
        }
    }
}

/// Whether the tone key is the horn proper (not the breve), which may spread
/// over an adjacent `u`-`o` pair.
pub open spec fn spec_tone_is_horn(method: u8, key: u16) -> bool {
    if method == VNI {
        key == keys::N7
    } else {
        key == keys::W
    }
}

/// Whether the tone modifier `key` may target the vowel key `k`.
pub open spec fn spec_tone_target(method: u8, key: u16, k: u16) -> bool {
    if method == VNI {
        if key == keys::N6 {
            k == keys::A || k == keys::E || k == keys::O
        } else if key == keys::N7 {
            k == keys::O || k == keys::U
        } else if key == keys::N8 {
            k == keys::A
        } else {
            false
        }
    } else {
        if key == keys::A {
            k == keys::A
        } else if key == keys::E {
            k == keys::E
        } else if key == keys::O {
            k == keys::O
        } else if key == keys::W {
            k == keys::A || k == keys::O || k == keys::U
        } else {
            false
        }
    }
}

/// The mark value `key` applies, or `MARK_NONE` when `key` is no mark key.
pub open spec fn spec_mark_value(method: u8, key: u16) -> u8 {
    if method == VNI {
        if key == keys::N1 {
            MARK_ACUTE
        } else if key == keys::N2 {
            MARK_GRAVE
        } else if key == keys::N3 {
            MARK_HOOK
        } else if key == keys::N4 {
            MARK_TILDE
        } else if key == keys::N5 {
            MARK_DOT
        } else {
            MARK_NONE
        }
    } else {
        if key == keys::S {
            MARK_ACUTE
        } else if key == keys::F {
            MARK_GRAVE
        } else if key == keys::R {
            MARK_HOOK
        } else if key == keys::X {
            MARK_TILDE
        } else if key == keys::J {
            MARK_DOT
        } else {
            MARK_NONE
        }
    }
}

/// Whether `key` asks for the remove transform (clear one mark or tone).
pub open spec fn spec_remove_key(method: u8, key: u16) -> bool {
    if method == VNI {
        key == keys::N0
    } else {
        key == keys::Z
    }
}

pub fn stroke_key(method: u8, key: u16) -> (r: bool)
    ensures
        r == spec_stroke_key(method, key),
{
    if method == VNI {
        key == keys::N9
    } else {
        key == keys::D
    }
}

pub fn tone_value(method: u8, key: u16) -> (r: u8)
    ensures
        r == spec_tone_value(method, key),
{
    if method == VNI {
        if key == keys::N6 {
            TONE_CIRCUMFLEX
        } else if key == keys::N7 || key == keys::N8 {
            TONE_HORN
        } else {
            TONE_NONE
        }
    } else {
        if key == keys::A || key == keys::E || key == keys::O {
            TONE_CIRCUMFLEX
        } else if key == keys::W {
            TONE_HORN
        } else {
            TONE_NONE
        }
    }
}

pub fn tone_is_horn(method: u8, key: u16) -> (r: bool)
    ensures
        r == spec_tone_is_horn(method, key),
{
    if method == VNI {
        key == keys::N7
    } else {
        key == keys::W
    }
}

pub fn tone_target(method: u8, key: u16, k: u16) -> (r: bool)
    ensures
        r == spec_tone_target(method, key, k),
{
    if method == VNI {
        if key == keys::N6 {
            k == keys::A || k == keys::E || k == keys::O
        } else if key == keys::N7 {
            k == keys::O || k == keys::U
        } else if key == keys::N8 {
            k == keys::A
        } else {
            false
        }
    } else {
        if key == keys::A {
            k == keys::A
        } else if key == keys::E {
            k == keys::E
        } else if key == keys::O {
            k == keys::O
        } else if key == keys::W {
            k == keys::A || k == keys::O || k == keys::U
        } else {
            false
        }
    }
}

pub fn mark_value(method: u8, key: u16) -> (r: u8)
    ensures
        r == spec_mark_value(method, key),
{
    if method == VNI {
        if key == keys::N1 {
            MARK_ACUTE
        } else if key == keys::N2 {
            MARK_GRAVE
        } else if key == keys::N3 {
            MARK_HOOK
        } else if key == keys::N4 {
            MARK_TILDE
        } else if key == keys::N5 {
            MARK_DOT
        } else {
            MARK_NONE
        }
    } else {
        if key == keys::S {
            MARK_ACUTE
        } else if key == keys::F {
            MARK_GRAVE
        } else if key == keys::R {
            MARK_HOOK
        } else if key == keys::X {
            MARK_TILDE
        } else if key == keys::J {
            MARK_DOT
        } else {
            MARK_NONE
        }
    }
}

pub fn remove_key(method: u8, key: u16) -> (r: bool)
    ensures
        r == spec_remove_key(method, key),
{
    if method == VNI {
        key == keys::N0
    } else {
        key == keys::Z
    }
}

} // verus!
