//! The keystroke buffer: a fixed-capacity sequence of annotated letter
//! records.
//!
//! Each record remembers the letter key that was typed, its case, and the
//! annotations the engine has applied to it so far: a tone modifier, a tone
//! mark, and (for `D` only) the stroke bit.  A push beyond the capacity
//! [`MAX`] ignores the new record.

use vstd::prelude::*;

use crate::data::chars::{MARK_DOT, MARK_NONE, TONE_HORN, TONE_NONE};
use crate::data::keys;

verus! {

/// Capacity of the buffer, in records.
pub const MAX: usize = 16;

/// One annotated letter record.
#[derive(Clone, Copy, Debug, PartialEq, Eq, Structural)]
pub struct Char {
    /// The letter key that was typed.
    pub key: u16,
    /// Whether the letter was typed upper case.
    pub caps: bool,
    /// Tone modifier (`TONE_NONE`, `TONE_CIRCUMFLEX` or `TONE_HORN`).
    pub tone: u8,
    /// Tone mark (`MARK_NONE` or one of the five marks).
    pub mark: u8,
    /// Stroke bit; meaningful only on `D`.
    pub stroke: bool,
}

/// A well-formed record: a letter key, annotations in range, the stroke bit
/// only on `D`, and tone and mark only on vowels.
pub open spec fn char_wf(c: Char) -> bool {
    &&& keys::spec_is_letter(c.key)
    &&& c.tone <= TONE_HORN
    &&& c.mark <= MARK_DOT
    &&& (c.stroke ==> c.key == keys::D)
    &&& (c.tone != TONE_NONE ==> keys::spec_is_vowel(c.key))
    &&& (c.mark != MARK_NONE ==> keys::spec_is_vowel(c.key))
}

/// How many records of `s` carry a tone mark.
pub open spec fn mark_count(s: Seq<Char>) -> int
    decreases s.len(),
{
    if s.len() == 0 {
        0
    } else {
        mark_count(s.drop_last()) + if s.last().mark != MARK_NONE {
            1int
        } else {
            0int
        }
    }
}

/// A well-formed buffer: within capacity, well-formed records, and at most
/// one tone mark in the whole buffer.
pub open spec fn buf_wf(s: Seq<Char>) -> bool {
    &&& s.len() <= MAX
    &&& (forall|i: int| 0 <= i < s.len() ==> char_wf(#[trigger] s[i]))
    &&& mark_count(s) <= 1
}

pub proof fn lemma_mark_count_nonneg(s: Seq<Char>)
    ensures
        mark_count(s) >= 0,
    decreases s.len(),
{
    if s.len() > 0 {
        lemma_mark_count_nonneg(s.drop_last());
    }
}

/// A record with a mark contributes to the count.
pub proof fn lemma_mark_count_at(s: Seq<Char>, i: int)
    requires
        0 <= i < s.len(),
        s[i].mark != MARK_NONE,
    ensures
        mark_count(s) >= 1,
    decreases s.len(),
{
    lemma_mark_count_nonneg(s.drop_last());
    if i < s.len() - 1 {
        lemma_mark_count_at(s.drop_last(), i);
    }
}

/// A buffer without marked records has count zero.
pub proof fn lemma_mark_count_zero(s: Seq<Char>)
    requires
        forall|i: int| 0 <= i < s.len() ==> #[trigger] s[i].mark == MARK_NONE,
    ensures
        mark_count(s) == 0,
    decreases s.len(),
{
    if s.len() > 0 {
        lemma_mark_count_zero(s.drop_last());
    }
}

/// Buffers with the same marks, record for record, have the same count.
pub proof fn lemma_mark_count_pointwise(s: Seq<Char>, t: Seq<Char>)
    requires
        s.len() == t.len(),
        forall|i: int| 0 <= i < s.len() ==> (#[trigger] s[i]).mark == t[i].mark,
    ensures
        mark_count(s) == mark_count(t),
    decreases s.len(),
{
    if s.len() > 0 {
        lemma_mark_count_pointwise(s.drop_last(), t.drop_last());
    }
}

/// Two distinct marked records give a count of at least two.
pub proof fn lemma_mark_count_two(s: Seq<Char>, i: int, j: int)
    requires
        0 <= i < s.len(),
        0 <= j < s.len(),
        i != j,
        s[i].mark != MARK_NONE,
        s[j].mark != MARK_NONE,
    ensures
        mark_count(s) >= 2,
    decreases s.len(),
{
    let a = if i < j { i } else { j };
    let b = if i < j { j } else { i };
    if b == s.len() - 1 {
        lemma_mark_count_at(s.drop_last(), a);
    } else {
        lemma_mark_count_two(s.drop_last(), a, b);
    }
}

/// Updating one record changes the count by the difference of the two
/// records' contributions.
pub proof fn lemma_mark_count_update(s: Seq<Char>, i: int, c: Char)
    requires
        0 <= i < s.len(),
    ensures
        mark_count(s.update(i, c)) == mark_count(s) + (if c.mark != MARK_NONE {
            1int
        } else {
            0int
        }) - (if s[i].mark != MARK_NONE {
            1int
        } else {
            0int
        }),
    decreases s.len(),
{
    let t = s.update(i, c);
    if i == s.len() - 1 {
        assert(t.drop_last() =~= s.drop_last());
    } else {
        assert(t.drop_last() =~= s.drop_last().update(i, c));
        lemma_mark_count_update(s.drop_last(), i, c);
    }
}

/// Appending a record adds its contribution to the count.
pub proof fn lemma_mark_count_push(s: Seq<Char>, c: Char)
    ensures
        mark_count(s.push(c)) == mark_count(s) + (if c.mark != MARK_NONE {
            1int
        } else {
            0int
        }),
{
    assert(s.push(c).drop_last() =~= s);
}

impl Char {
    /// A fresh, unannotated record for a typed letter.
    pub fn new(key: u16, caps: bool) -> (r: Char)
        ensures
            r == (Char { key, caps, tone: TONE_NONE, mark: MARK_NONE, stroke: false }),
    {
        Char { key, caps, tone: TONE_NONE, mark: MARK_NONE, stroke: false }
    }
}

/// The keystroke buffer.
pub struct Buffer {
    recs: Vec<Char>,
}

impl View for Buffer {
    type V = Seq<Char>;

    closed spec fn view(&self) -> Seq<Char> {
        self.recs@
    }
}

impl Buffer {
    /// An empty buffer.
    pub fn new() -> (r: Buffer)
        ensures
            r@ == Seq::<Char>::empty(),
    {
        Buffer { recs: Vec::new() }
    }

    pub fn len(&self) -> (r: usize)
        ensures
            r == self@.len(),
    {
        self.recs.len()
    }

    pub fn is_empty(&self) -> (r: bool)
        ensures
            r == (self@.len() == 0),
    {
        self.recs.len() == 0
    }

    pub fn get(&self, i: usize) -> (r: Char)
        requires
            i < self@.len(),
        ensures
            r == self@[i as int],
    {
        self.recs[i]
    }

    /// Replace the record at `i`.
    pub fn set(&mut self, i: usize, c: Char)
        requires
            i < old(self)@.len(),
        ensures
            final(self)@ == old(self)@.update(i as int, c),
    {
        self.recs.set(i, c);
    }

    /// Append a record; a push beyond capacity is ignored.
    pub fn push(&mut self, c: Char)
        ensures
            old(self)@.len() < MAX ==> final(self)@ == old(self)@.push(c),
            old(self)@.len() >= MAX ==> final(self)@ == old(self)@,
    {
        if self.recs.len() < MAX {
            self.recs.push(c);
        }
    }

    /// Drop the last record, if any.
    pub fn pop(&mut self)
        ensures
            old(self)@.len() > 0 ==> final(self)@ == old(self)@.drop_last(),
            old(self)@.len() == 0 ==> final(self)@ == old(self)@,
    {
        if self.recs.len() > 0 {
            self.recs.pop();
        }
    }

    /// Remove every record.
    pub fn clear(&mut self)
        ensures
            final(self)@ == Seq::<Char>::empty(),
    {
        self.recs = Vec::new();
    }

    /// The sequence of keys held by the buffer.
    pub fn keys(&self) -> (r: Vec<u16>)
        ensures
            r@ == self@.map_values(|c: Char| c.key),
    {
        let mut out: Vec<u16> = Vec::new();
        let mut i: usize = 0;
        while i < self.recs.len()
            invariant
                i <= self.recs.len(),
                out@.len() == i,
                forall|j: int| 0 <= j < i ==> out@[j] == self@[j].key,
            decreases self.recs.len() - i,
        {
            out.push(self.recs[i].key);
            i = i + 1;
        }
        assert(out@ =~= self@.map_values(|c: Char| c.key));
        out
    }
}

} // verus!
