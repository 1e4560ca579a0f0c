//! The Vietnamese phonotactic validator.
//!
//! [`is_valid`] decides whether a sequence of base-letter keys is a plausible
//! prefix of a Vietnamese syllable.  Annotations (tone, mark, stroke) are
//! ignored: the validator sees base letters only.  A sequence is accepted
//! when it splits as onset, nucleus and coda:
//!
//! * the onset is empty or one of the recognised Vietnamese onsets (`q` is
//!   accepted only when followed by `u`);
//! * the nucleus is an attested vowel run of one to three vowels;
//! * the coda is empty or one of the recognised final consonants.
//!
//! A sequence with no vowel yet is accepted exactly when it is a prefix of
//! some onset.  The letters `f`, `j`, `w`, `z` and the digit keys appear in
//! no table, so any sequence holding them outside a nucleus is rejected, and
//! they are not vowels.

use vstd::prelude::*;

use crate::data::keys;
use crate::data::keys::spec_is_vowel;

verus! {

/// Index of the first vowel key at or after `i`, or the length if none.
pub open spec fn scan_vowel_start(s: Seq<u16>, i: int) -> int
    decreases s.len() - i,
{
    if i < 0 || i >= s.len() {
        s.len() as int
    } else if spec_is_vowel(s[i]) {
        i
    } else {
        scan_vowel_start(s, i + 1)
    }
}

/// Index of the first non-vowel key at or after `i`, or the length if none.
pub open spec fn scan_vowel_end(s: Seq<u16>, i: int) -> int
    decreases s.len() - i,
{
    if i < 0 || i >= s.len() {
        s.len() as int
    } else if !spec_is_vowel(s[i]) {
        i
    } else {
        scan_vowel_end(s, i + 1)
    }
}

/// A consonant that may stand alone as an onset.
pub open spec fn spec_single_onset(k: u16) -> bool {
    ||| k == keys::B
    ||| k == keys::C
    ||| k == keys::D
    ||| k == keys::G
    ||| k == keys::H
    ||| k == keys::K
    ||| k == keys::L
    ||| k == keys::M
    ||| k == keys::N
    ||| k == keys::P
    ||| k == keys::R
    ||| k == keys::S
    ||| k == keys::T
    ||| k == keys::V
    ||| k == keys::X
}

/// A two-consonant onset: ch, gh, kh, ng, nh, ph, th, tr.
pub open spec fn spec_pair_onset(a: u16, b: u16) -> bool {
    ||| (a == keys::C && b == keys::H)
    ||| (a == keys::G && b == keys::H)
    ||| (a == keys::K && b == keys::H)
    ||| (a == keys::N && b == keys::G)
    ||| (a == keys::N && b == keys::H)
    ||| (a == keys::P && b == keys::H)
    ||| (a == keys::T && b == keys::H)
    ||| (a == keys::T && b == keys::R)
}

/// An attested two-vowel nucleus, by base letters.
pub open spec fn spec_pair_nucleus(a: u16, b: u16) -> bool {
    ||| (a == keys::A && (b == keys::I || b == keys::O || b == keys::U || b == keys::Y))
    ||| (a == keys::E && (b == keys::O || b == keys::U))
    ||| (a == keys::I && (b == keys::A || b == keys::E || b == keys::U))
    ||| (a == keys::O && (b == keys::A || b == keys::E || b == keys::I || b == keys::O))
    ||| (a == keys::U && (b == keys::A || b == keys::E || b == keys::I || b == keys::O || b
        == keys::U || b == keys::Y))
    ||| (a == keys::Y && b == keys::E)
}

/// An attested three-vowel nucleus, by base letters.
pub open spec fn spec_triple_nucleus(a: u16, b: u16, c: u16) -> bool {
    ||| (a == keys::I && b == keys::E && c == keys::U)
    ||| (a == keys::O && b == keys::A && (c == keys::I || c == keys::O || c == keys::Y))
    ||| (a == keys::O && b == keys::E && c == keys::O)
    ||| (a == keys::U && b == keys::A && (c == keys::O || c == keys::I || c == keys::Y))
    ||| (a == keys::U && b == keys::E && c == keys::O)
    ||| (a == keys::U && b == keys::Y && (c == keys::A || c == keys::E || c == keys::U))
    ||| (a == keys::U && b == keys::O && (c == keys::I || c == keys::U))
    ||| (a == keys::Y && b == keys::E && c == keys::U)
}

/// A single-consonant coda: c, m, n, p, t.
pub open spec fn spec_single_coda(k: u16) -> bool {
    k == keys::C || k == keys::M || k == keys::N || k == keys::P || k == keys::T
}

/// A two-consonant coda: ch, ng, nh.
pub open spec fn spec_pair_coda(a: u16, b: u16) -> bool {
    ||| (a == keys::C && b == keys::H)
    ||| (a == keys::N && b == keys::G)
    ||| (a == keys::N && b == keys::H)
}

/// A whole sequence with no vowel is accepted when it is a prefix of some
/// onset (a lone `q` may still grow into `qu`, `ng` into `ngh`).
pub open spec fn spec_consonant_prefix(s: Seq<u16>) -> bool {
    if s.len() == 1 {
        spec_single_onset(s[0]) || s[0] == keys::Q
    } else if s.len() == 2 {
        spec_pair_onset(s[0], s[1])
    } else if s.len() == 3 {
        s[0] == keys::N && s[1] == keys::G && s[2] == keys::H
    } else {
        false
    }
}

/// The onset `s[0..fv]` is recognised; `q` demands that the first vowel be
/// `u`.
pub open spec fn spec_valid_onset(s: Seq<u16>, fv: int) -> bool {
    if fv == 0 {
        true
    } else if fv == 1 {
        spec_single_onset(s[0]) || (s[0] == keys::Q && s[1] == keys::U)
    } else if fv == 2 {
        spec_pair_onset(s[0], s[1])
    } else if fv == 3 {
        s[0] == keys::N && s[1] == keys::G && s[2] == keys::H
    } else {
        false
    }
}

/// Spelling agreement between onset and first nucleus vowel: `k`, `gh` and
/// `ngh` stand only before front vowels, `c` and `ng` only elsewhere, and
/// `g` not directly before `e` (that is `gh`'s place).
pub open spec fn spec_onset_vowel_ok(s: Seq<u16>, fv: int) -> bool {
    let v = s[fv];
    if fv == 1 && s[0] == keys::K {
        v == keys::I || v == keys::E || v == keys::Y
    } else if fv == 1 && s[0] == keys::C {
        !(v == keys::I || v == keys::E || v == keys::Y)
    } else if fv == 1 && s[0] == keys::G {
        v != keys::E
    } else if fv == 2 && s[0] == keys::G && s[1] == keys::H {
        v == keys::I || v == keys::E
    } else if fv == 2 && s[0] == keys::N && s[1] == keys::G {
        !(v == keys::I || v == keys::E)
    } else if fv == 3 && s[0] == keys::N && s[1] == keys::G && s[2] == keys::H {
        v == keys::I || v == keys::E
    } else {
        true
    }
}

/// The nucleus `s[fv..nv]` is an attested vowel run.
pub open spec fn spec_valid_nucleus(s: Seq<u16>, fv: int, nv: int) -> bool {
    if nv - fv == 1 {
        true
    } else if nv - fv == 2 {
        spec_pair_nucleus(s[fv], s[fv + 1])
    } else if nv - fv == 3 {
        spec_triple_nucleus(s[fv], s[fv + 1], s[fv + 2])
    } else {
        false
    }
}

/// The coda `s[nv..]` is empty or recognised.
pub open spec fn spec_valid_coda(s: Seq<u16>, nv: int) -> bool {
    if s.len() - nv == 0 {
        true
    } else if s.len() - nv == 1 {
        spec_single_coda(s[nv])
    } else if s.len() - nv == 2 {
        spec_pair_coda(s[nv], s[nv + 1])
    } else {
        false
    }
}

/// The plain decomposition: longest consonant onset, vowel run, coda.
pub open spec fn spec_valid_plain(s: Seq<u16>) -> bool {
    let fv = scan_vowel_start(s, 0);
    if fv == s.len() {
        s.len() == 0 || spec_consonant_prefix(s)
    } else {
        let nv = scan_vowel_end(s, fv);
        &&& spec_valid_onset(s, fv)
        &&& spec_onset_vowel_ok(s, fv)
        &&& spec_valid_nucleus(s, fv, nv)
        &&& spec_valid_coda(s, nv)
    }
}

/// The `gi` digraph read as an onset: its `i` belongs to the onset, and the
/// nucleus starts right after it (gio, gieo, giuong and the like).
pub open spec fn spec_valid_gi(s: Seq<u16>) -> bool {
    s.len() >= 3 && s[0] == keys::G && s[1] == keys::I && spec_is_vowel(s[2]) && {
        let nv = scan_vowel_end(s, 2);
        &&& spec_valid_nucleus(s, 2, nv)
        &&& spec_valid_coda(s, nv)
    }
}

/// Whether a base-letter key sequence is a plausible prefix of a Vietnamese
/// syllable: either the plain decomposition holds, or the word starts with
/// the onset digraph `gi` followed by an attested nucleus.
pub open spec fn spec_valid(s: Seq<u16>) -> bool {
    spec_valid_plain(s) || spec_valid_gi(s)
}

proof fn lemma_scan_vowel_start_bounds(s: Seq<u16>, i: int)
    requires
        0 <= i <= s.len(),
    ensures
        i <= scan_vowel_start(s, i) <= s.len(),
    decreases s.len() - i,
{
    if i < s.len() && !spec_is_vowel(s[i]) {
        lemma_scan_vowel_start_bounds(s, i + 1);
    }
}

proof fn lemma_scan_vowel_end_bounds(s: Seq<u16>, i: int)
    requires
        0 <= i <= s.len(),
    ensures
        i <= scan_vowel_end(s, i) <= s.len(),
    decreases s.len() - i,
{
    if i < s.len() && spec_is_vowel(s[i]) {
        lemma_scan_vowel_end_bounds(s, i + 1);
    }
}

/// Decide whether the key sequence is a plausible Vietnamese syllable prefix.
pub fn is_valid(v: &Vec<u16>) -> (r: bool)
    ensures
        r == spec_valid(v@),
{
    if is_valid_plain(v) {
        return true;
    }
    is_valid_gi(v)
}

/// The plain onset-nucleus-coda decomposition.
fn is_valid_plain(v: &Vec<u16>) -> (r: bool)
    ensures
        r == spec_valid_plain(v@),
{
    let n = v.len();
    let ghost s = v@;
    // find the first vowel
    let mut fv: usize = 0;
    while fv < n && !keys::is_vowel(v[fv as usize])
        invariant
            0 <= fv <= n,
            n == s.len(),
            s == v@,
            scan_vowel_start(s, 0) == scan_vowel_start(s, fv as int),
        decreases n - fv,
    {
        fv = fv + 1;
    }
    proof {
        lemma_scan_vowel_start_bounds(s, fv as int);
    }
    assert(scan_vowel_start(s, 0) == fv as int);
    if fv == n {
        // no vowel yet: accept prefixes of onsets
        if n == 0 {
            return true;
        }
        if n == 1 {
            return single_onset(v[0]) || v[0] == keys::Q;
        }
        if n == 2 {
            return pair_onset(v[0], v[1]);
        }
        if n == 3 {
            return v[0] == keys::N && v[1] == keys::G && v[2] == keys::H;
        }
        return false;
    }
    // find the end of the vowel run
    let mut nv: usize = fv;
    while nv < n && keys::is_vowel(v[nv as usize])
        invariant
            fv <= nv <= n,
            n == s.len(),
            s == v@,
            scan_vowel_end(s, fv as int) == scan_vowel_end(s, nv as int),
        decreases n - nv,
    {
        nv = nv + 1;
    }
    proof {
        lemma_scan_vowel_end_bounds(s, nv as int);
    }
    assert(scan_vowel_end(s, fv as int) == nv as int);
    // onset and its agreement with the first nucleus vowel
    let v1 = v[fv];
    let agree_ok: bool = if fv == 1 && v[0] == keys::K {
        v1 == keys::I || v1 == keys::E || v1 == keys::Y
    } else if fv == 1 && v[0] == keys::C {
        !(v1 == keys::I || v1 == keys::E || v1 == keys::Y)
    } else if fv == 1 && v[0] == keys::G {
        v1 != keys::E
    } else if fv == 2 && v[0] == keys::G && v[1] == keys::H {
        v1 == keys::I || v1 == keys::E
    } else if fv == 2 && v[0] == keys::N && v[1] == keys::G {
        !(v1 == keys::I || v1 == keys::E)
    } else if fv == 3 && v[0] == keys::N && v[1] == keys::G && v[2] == keys::H {
        v1 == keys::I || v1 == keys::E
    } else {
        true
    };
    let onset_ok: bool = if fv == 0 {
        true
    } else if fv == 1 {
        single_onset(v[0]) || (v[0] == keys::Q && v[1] == keys::U)
    } else if fv == 2 {
        pair_onset(v[0], v[1])
    } else if fv == 3 {
        v[0] == keys::N && v[1] == keys::G && v[2] == keys::H
    } else {
        false
    };
    // nucleus
    let nucleus_ok: bool = if nv - fv == 1 {
        true
    } else if nv - fv == 2 {
        pair_nucleus(v[fv], v[fv + 1])
    } else if nv - fv == 3 {
        triple_nucleus(v[fv], v[fv + 1], v[fv + 2])
    } else {
        false
    };
    // coda
    let coda_ok: bool = if n - nv == 0 {
        true
    } else if n - nv == 1 {
        single_coda(v[nv])
    } else if n - nv == 2 {
        pair_coda(v[nv], v[nv + 1])
    } else {
        false
    };
    onset_ok && agree_ok && nucleus_ok && coda_ok
}

/// The `gi`-onset reading.
fn is_valid_gi(v: &Vec<u16>) -> (r: bool)
    ensures
        r == spec_valid_gi(v@),
{
    let n = v.len();
    let ghost s = v@;
    if n < 3 || v[0] != keys::G || v[1] != keys::I || !keys::is_vowel(v[2]) {
        return false;
    }
    let mut nv: usize = 2;
    while nv < n && keys::is_vowel(v[nv as usize])
        invariant
            2 <= nv <= n,
            n == s.len(),
            s == v@,
            scan_vowel_end(s, 2) == scan_vowel_end(s, nv as int),
        decreases n - nv,
    {
        nv = nv + 1;
    }
    proof {
        lemma_scan_vowel_end_bounds(s, nv as int);
    }
    assert(scan_vowel_end(s, 2) == nv as int);
    let nucleus_ok: bool = if nv - 2 == 1 {
        true
    } else if nv - 2 == 2 {
        pair_nucleus(v[2], v[3])
    } else if nv - 2 == 3 {
        triple_nucleus(v[2], v[3], v[4])
    } else {
        false
    };
    let coda_ok: bool = if n - nv == 0 {
        true
    } else if n - nv == 1 {
        single_coda(v[nv])
    } else if n - nv == 2 {
        pair_coda(v[nv], v[nv + 1])
    } else {
        false
    };
    nucleus_ok && coda_ok
}

fn single_onset(k: u16) -> (r: bool)
    ensures
        r == spec_single_onset(k),
{
    k == keys::B || k == keys::C || k == keys::D || k == keys::G || k == keys::H || k == keys::K
        || k == keys::L || k == keys::M || k == keys::N || k == keys::P || k == keys::R || k
        == keys::S || k == keys::T || k == keys::V || k == keys::X
}

fn pair_onset(a: u16, b: u16) -> (r: bool)
    ensures
        r == spec_pair_onset(a, b),
{
    (a == keys::C && b == keys::H) || (a == keys::G && b == keys::H) || (a == keys::K && b
        == keys::H) || (a == keys::N && b == keys::G) || (a == keys::N && b == keys::H) || (a
        == keys::P && b == keys::H) || (a == keys::T && b == keys::H) || (a == keys::T && b
        == keys::R)
}

fn pair_nucleus(a: u16, b: u16) -> (r: bool)
    ensures
        r == spec_pair_nucleus(a, b),
{
    (a == keys::A && (b == keys::I || b == keys::O || b == keys::U || b == keys::Y)) || (a
        == keys::E && (b == keys::O || b == keys::U)) || (a == keys::I && (b == keys::A || b
        == keys::E || b == keys::U)) || (a == keys::O && (b == keys::A || b == keys::E || b
        == keys::I || b == keys::O)) || (a == keys::U && (b == keys::A || b == keys::E || b
        == keys::I || b == keys::O || b == keys::U || b == keys::Y)) || (a == keys::Y && b
        == keys::E)
}

fn triple_nucleus(a: u16, b: u16, c: u16) -> (r: bool)
    ensures
        r == spec_triple_nucleus(a, b, c),
{
    (a == keys::I && b == keys::E && c == keys::U) || (a == keys::O && b == keys::A && (c
        == keys::I || c == keys::O || c == keys::Y)) || (a == keys::O && b == keys::E && c
        == keys::O) || (a == keys::U && b == keys::A && (c == keys::O || c == keys::I || c
        == keys::Y)) || (a == keys::U && b == keys::E && c == keys::O) || (a == keys::U && b
        == keys::Y && (c == keys::A || c == keys::E || c == keys::U)) || (a == keys::U && b
        == keys::O && (c == keys::I || c == keys::U)) || (a == keys::Y && b == keys::E && c
        == keys::U)
}

fn single_coda(k: u16) -> (r: bool)
    ensures
        r == spec_single_coda(k),
{
    k == keys::C || k == keys::M || k == keys::N || k == keys::P || k == keys::T
}

fn pair_coda(a: u16, b: u16) -> (r: bool)
    ensures
        r == spec_pair_coda(a, b),
{
    (a == keys::C && b == keys::H) || (a == keys::N && b == keys::G) || (a == keys::N && b
        == keys::H)
}

} // verus!
