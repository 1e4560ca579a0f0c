//! Vowel phonology: where the tone mark goes in a vowel cluster.
//!
//! Given the ordered vowels of the buffer (with their current tone
//! modifiers), whether a final consonant follows, whether the syllable
//! begins with `qu-` or `gi-`, and the mode flag, [`find_tone_position`]
//! picks the buffer position that receives the tone mark.  Rules, first
//! match wins:
//!
//! 1. the `u` of an initial `qu-` and the `i` of an initial `gi-` do not
//!    count as cluster vowels (unless they are the only vowel);
//! 2. a vowel already carrying a tone modifier takes the mark; the rightmost
//!    if two do;
//! 3. a single vowel takes the mark;
//! 4. of three vowels, the middle one takes the mark;
//! 5. of two vowels with a final consonant, the second takes the mark;
//! 6. of two open vowels: in modern style the mark goes on the second vowel
//!    of the open pairs `oa`, `oe`, `uy` and on the first otherwise; in
//!    traditional style on the first vowel of those pairs and on the second
//!    otherwise.

use vstd::prelude::*;

use crate::data::chars::TONE_NONE;
use crate::data::keys;

verus! {

/// A vowel occurrence: its key, its current tone modifier, and its position
/// in the buffer.
#[derive(Clone, Copy, Debug, PartialEq, Eq, Structural)]
pub struct Vowel {
    pub key: u16,
    pub tone: u8,
    pub pos: usize,
}

impl Vowel {
    pub fn new(key: u16, tone: u8, pos: usize) -> (r: Vowel)
        ensures
            r == (Vowel { key, tone, pos }),
    {
        Vowel { key, tone, pos }
    }
}

/// Index of the rightmost cluster vowel that carries a tone modifier, or -1.
pub open spec fn last_modified_index(cl: Seq<Vowel>) -> int
    decreases cl.len(),
{
    if cl.len() == 0 {
        -1
    } else if cl.last().tone != TONE_NONE {
        cl.len() - 1
    } else {
        last_modified_index(cl.drop_last())
    }
}

/// The cluster that counts for placement: an initial `qu-` or `gi-` gives up
/// its `u` or `i` when other vowels follow.
pub open spec fn spec_cluster(s: Seq<Vowel>, has_qu: bool, has_gi: bool) -> Seq<Vowel> {
    if s.len() >= 2 && ((has_qu && s[0].key == keys::U) || (has_gi && s[0].key == keys::I)) {
        s.drop_first()
    } else {
        s
    }
}

/// The open two-vowel patterns whose placement the mode flag decides.
pub open spec fn spec_open_pair(a: u16, b: u16) -> bool {
    ||| (a == keys::O && b == keys::A)
    ||| (a == keys::O && b == keys::E)
    ||| (a == keys::U && b == keys::Y)
}

/// The buffer position that takes the mark, over the counting cluster.
pub open spec fn spec_pos_in_cluster(cl: Seq<Vowel>, has_final: bool, modern: bool) -> usize
    recommends
        cl.len() > 0,
{
    if last_modified_index(cl) >= 0 {
        cl[last_modified_index(cl)].pos
    } else if cl.len() == 1 {
        cl[0].pos
    } else if cl.len() >= 3 {
        cl[1].pos
    } else if has_final {
        cl[1].pos
    } else if spec_open_pair(cl[0].key, cl[1].key) == modern {
        cl[1].pos
    } else {
        cl[0].pos
    }
}

/// The buffer position that takes the mark.
pub open spec fn spec_find_tone_position(
    s: Seq<Vowel>,
    has_final: bool,
    modern: bool,
    has_qu: bool,
    has_gi: bool,
) -> usize {
    spec_pos_in_cluster(spec_cluster(s, has_qu, has_gi), has_final, modern)
}

pub proof fn lemma_last_modified_index_bounds(cl: Seq<Vowel>)
    ensures
        -1 <= last_modified_index(cl) < cl.len(),
        last_modified_index(cl) >= 0 ==> cl[last_modified_index(cl)].tone != TONE_NONE,
    decreases cl.len(),
{
    if cl.len() > 0 && cl.last().tone == TONE_NONE {
        lemma_last_modified_index_bounds(cl.drop_last());
    }
}

/// Vowels without a modifier beyond `m` do not move the rightmost-modified
/// index.
proof fn lemma_lmi_none_suffix(cl: Seq<Vowel>, m: int)
    requires
        0 <= m <= cl.len(),
        forall|k: int| m <= k < cl.len() ==> #[trigger] cl[k].tone == TONE_NONE,
    ensures
        last_modified_index(cl) == last_modified_index(cl.take(m)),
    decreases cl.len() - m,
{
    if m < cl.len() {
        assert(cl.drop_last() =~= cl.take(cl.len() - 1));
        lemma_lmi_none_suffix(cl.take(cl.len() - 1), m);
        assert(cl.take(cl.len() - 1).take(m) =~= cl.take(m));
    } else {
        assert(cl.take(m) =~= cl);
    }
}

/// The chosen position always belongs to a vowel of the cluster handed in.
pub proof fn lemma_position_is_member(
    s: Seq<Vowel>,
    has_final: bool,
    modern: bool,
    has_qu: bool,
    has_gi: bool,
)
    requires
        s.len() > 0,
    ensures
        exists|i: int|
            0 <= i < s.len() && (#[trigger] s[i]).pos == spec_find_tone_position(
                s,
                has_final,
                modern,
                has_qu,
                has_gi,
            ),
{
    let cl = spec_cluster(s, has_qu, has_gi);
    lemma_last_modified_index_bounds(cl);
    let r = spec_pos_in_cluster(cl, has_final, modern);
    let lmi = last_modified_index(cl);
    let off: int = if cl =~= s {
        0
    } else {
        1
    };
    if lmi >= 0 {
        assert(s[lmi + off].pos == r);
    } else if cl.len() == 1 || (cl.len() == 2 && !has_final && spec_open_pair(cl[0].key, cl[1].key)
        != modern) {
        assert(s[off].pos == r);
    } else {
        assert(s[1 + off].pos == r);
    }
}

/// When other vowels follow it, the `u` of an initial `qu-` never takes the
/// mark, provided buffer positions are distinct.
pub proof fn lemma_qu_never_marked(
    s: Seq<Vowel>,
    has_final: bool,
    modern: bool,
    has_gi: bool,
)
    requires
        s.len() >= 2,
        s[0].key == keys::U,
        forall|i: int| 1 <= i < s.len() ==> (#[trigger] s[i]).pos != s[0].pos,
    ensures
        spec_find_tone_position(s, has_final, modern, true, has_gi) != s[0].pos,
{
    let cl = spec_cluster(s, true, has_gi);
    assert(cl =~= s.drop_first());
    lemma_last_modified_index_bounds(cl);
}

/// The same for the `i` of an initial `gi-`.
pub proof fn lemma_gi_never_marked(
    s: Seq<Vowel>,
    has_final: bool,
    modern: bool,
    has_qu: bool,
)
    requires
        s.len() >= 2,
        s[0].key == keys::I,
        !has_qu || s[0].key == keys::U,
        forall|i: int| 1 <= i < s.len() ==> (#[trigger] s[i]).pos != s[0].pos,
    ensures
        spec_find_tone_position(s, has_final, modern, has_qu, true) != s[0].pos,
{
    let cl = spec_cluster(s, has_qu, true);
    assert(cl =~= s.drop_first());
    lemma_last_modified_index_bounds(cl);
}

/// Pick the buffer position that receives the tone mark.
pub fn find_tone_position(
    vowels: &Vec<Vowel>,
    has_final: bool,
    modern: bool,
    has_qu: bool,
    has_gi: bool,
) -> (r: usize)
    requires
        vowels@.len() > 0,
    ensures
        r == spec_find_tone_position(vowels@, has_final, modern, has_qu, has_gi),
        exists|i: int| 0 <= i < vowels@.len() && (#[trigger] vowels@[i]).pos == r,
{
    proof {
        lemma_position_is_member(vowels@, has_final, modern, has_qu, has_gi);
    }
    let n = vowels.len();
    let start: usize = if n >= 2 && ((has_qu && vowels[0].key == keys::U) || (has_gi
        && vowels[0].key == keys::I)) {
        1
    } else {
        0
    };
    let ghost cl = spec_cluster(vowels@, has_qu, has_gi);
    proof {
        assert(cl =~= vowels@.subrange(start as int, n as int));
    }
    // rule: rightmost vowel that already carries a modifier
    let mut i: usize = n;
    while i > start
        invariant
            start <= i <= n,
            n == vowels@.len(),
            start < n,
            cl == spec_cluster(vowels@, has_qu, has_gi),
            cl =~= vowels@.subrange(start as int, n as int),
            forall|k: int| i <= k < n ==> #[trigger] vowels@[k].tone == TONE_NONE,
        decreases i,
    {
        i = i - 1;
        if vowels[i].tone != TONE_NONE {
            proof {
                assert(forall|k: int|
                    i - start + 1 <= k < cl.len() ==> (#[trigger] cl[k]).tone == TONE_NONE);
                lemma_lmi_none_suffix(cl, i - start + 1);
                assert(cl.take(i - start + 1).last() == vowels@[i as int]);
                assert(cl.take(i - start + 1).drop_last() =~= cl.take(i - start));
                assert(last_modified_index(cl.take(i - start + 1)) == i - start);
                assert(last_modified_index(cl) == i - start);
                assert(cl[i - start] == vowels@[i as int]);
                assert(spec_pos_in_cluster(cl, has_final, modern) == cl[i - start].pos);
                assert(spec_find_tone_position(vowels@, has_final, modern, has_qu, has_gi)
                    == vowels@[i as int].pos);
            }
            return vowels[i].pos;
        }
    }
    proof {
        lemma_lmi_none_suffix(cl, 0);
        assert(cl.take(0) =~= Seq::<Vowel>::empty());
        assert(last_modified_index(cl) == -1);
    }
    let len = n - start;
    if len == 1 {
        return vowels[start].pos;
    }
    if len >= 3 {
        return vowels[start + 1].pos;
    }
    if has_final {
        return vowels[start + 1].pos;
    }
    let a = vowels[start];
    let b = vowels[start + 1];
    let open = (a.key == keys::O && b.key == keys::A) || (a.key == keys::O && b.key == keys::E)
        || (a.key == keys::U && b.key == keys::Y);
    if open == modern {
        vowels[start + 1].pos
    } else {
        vowels[start].pos
    }
}

} // verus!
