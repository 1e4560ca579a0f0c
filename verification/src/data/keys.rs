//! Key codes and their classification.
//!
//! Key codes are small integers chosen by the host.  Letters `A`..`Z` come
//! first, then the digits `N0`..`N9`; a few control codes follow.  The engine
//! only relies on the predicates below being consistent with what the host
//! sends.

use vstd::prelude::*;

verus! {

pub const A: u16 = 0;
pub const B: u16 = 1;
pub const C: u16 = 2;
pub const D: u16 = 3;
pub const E: u16 = 4;
pub const F: u16 = 5;
pub const G: u16 = 6;
pub const H: u16 = 7;
pub const I: u16 = 8;
pub const J: u16 = 9;
pub const K: u16 = 10;
pub const L: u16 = 11;
pub const M: u16 = 12;
pub const N: u16 = 13;
pub const O: u16 = 14;
pub const P: u16 = 15;
pub const Q: u16 = 16;
pub const R: u16 = 17;
pub const S: u16 = 18;
pub const T: u16 = 19;
pub const U: u16 = 20;
pub const V: u16 = 21;
pub const W: u16 = 22;
pub const X: u16 = 23;
pub const Y: u16 = 24;
pub const Z: u16 = 25;
pub const N0: u16 = 26;
pub const N1: u16 = 27;
pub const N2: u16 = 28;
pub const N3: u16 = 29;
pub const N4: u16 = 30;
pub const N5: u16 = 31;
pub const N6: u16 = 32;
pub const N7: u16 = 33;
pub const N8: u16 = 34;
pub const N9: u16 = 35;
pub const SPACE: u16 = 40;
pub const TAB: u16 = 41;
pub const ENTER: u16 = 42;
pub const DELETE: u16 = 43;

/// A letter key: one of `A`..`Z` or a digit key.  Only letter keys may enter
/// the buffer.
pub open spec fn spec_is_letter(key: u16) -> bool {
    key <= N9
}

/// An alphabetic key, `A`..`Z`.
pub open spec fn spec_is_alpha(key: u16) -> bool {
    key <= Z
}

/// One of the six vowel keys `A`, `E`, `I`, `O`, `U`, `Y`.
pub open spec fn spec_is_vowel(key: u16) -> bool {
    key == A || key == E || key == I || key == O || key == U || key == Y
}

/// An alphabetic key that is not a vowel key.
pub open spec fn spec_is_consonant(key: u16) -> bool {
    spec_is_alpha(key) && !spec_is_vowel(key)
}

/// A word-break key: space, tab or enter.
pub open spec fn spec_is_break(key: u16) -> bool {
    key == SPACE || key == TAB || key == ENTER
}

pub fn is_letter(key: u16) -> (r: bool)
    ensures
        r == spec_is_letter(key),
{
    key <= N9
}

pub fn is_vowel(key: u16) -> (r: bool)
    ensures
        r == spec_is_vowel(key),
{
    key == A || key == E || key == I || key == O || key == U || key == Y
}

pub fn is_consonant(key: u16) -> (r: bool)
    ensures
        r == spec_is_consonant(key),
{
    key <= Z && !is_vowel(key)
}

pub fn is_break(key: u16) -> (r: bool)
    ensures
        r == spec_is_break(key),
{
    key == SPACE || key == TAB || key == ENTER
}

} // verus!
