//! Language data: key codes, character composition, and vowel phonology.

pub mod chars;
pub mod keys;
pub mod vowel;
