//! Word-boundary shortcut expansion.
//!
//! The table holds user-defined abbreviation rules.  On a word-break key the
//! engine hands the table the raw letters of the current word, its composed
//! form as shown on screen, and the break character; when a rule's trigger
//! equals the raw word (and the rule applies to the active input method),
//! the match says how many screen characters to delete and what to insert
//! instead.  The host inserts the break character itself.

use vstd::prelude::*;

verus! {

/// Method wildcard: the rule applies under any input method.
pub const METHOD_ANY: u8 = 2;

/// A firing rule's edit: delete `backspace` trailing screen characters and
/// insert `output`.
pub struct ShortcutMatch {
    pub backspace: u8,
    pub output: Vec<char>,
}

/// One abbreviation rule.
pub struct ShortcutRule {
    /// Identifier handed out by [`ShortcutTable::add`].
    pub id: u32,
    /// Input method the rule is restricted to, or [`METHOD_ANY`].
    pub method: u8,
    /// The raw word that triggers the rule.
    pub trigger: Vec<char>,
    /// The replacement text.
    pub output: Vec<char>,
}

/// The mathematical value of a rule.
pub struct RuleView {
    pub id: u32,
    pub method: u8,
    pub trigger: Seq<char>,
    pub output: Seq<char>,
}

impl View for ShortcutRule {
    type V = RuleView;

    open spec fn view(&self) -> RuleView {
        RuleView { id: self.id, method: self.method, trigger: self.trigger@, output: self.output@ }
    }
}

/// Whether a rule fires on `word` under `method`.
pub open spec fn rule_matches(r: RuleView, word: Seq<char>, method: u8) -> bool {
    (r.method == METHOD_ANY || r.method == method) && r.trigger == word
}

/// Index of the first rule at or after `i` that fires, or -1.
pub open spec fn match_index_from(rules: Seq<RuleView>, word: Seq<char>, method: u8, i: int) -> int
    decreases rules.len() - i,
{
    if i < 0 || i >= rules.len() {
        -1
    } else if rule_matches(rules[i], word, method) {
        i
    } else {
        match_index_from(rules, word, method, i + 1)
    }
}

/// Index of the first rule that fires on `word` under `method`, or -1.
pub open spec fn first_match_index(rules: Seq<RuleView>, word: Seq<char>, method: u8) -> int {
    match_index_from(rules, word, method, 0)
}

/// Index of the first rule at or after `i` with the given id, or -1.
pub open spec fn id_index_from(rules: Seq<RuleView>, id: u32, i: int) -> int
    decreases rules.len() - i,
{
    if i < 0 || i >= rules.len() {
        -1
    } else if rules[i].id == id {
        i
    } else {
        id_index_from(rules, id, i + 1)
    }
}

pub proof fn lemma_id_index_bounds(rules: Seq<RuleView>, id: u32, i: int)
    requires
        0 <= i <= rules.len(),
    ensures
        -1 <= id_index_from(rules, id, i) < rules.len(),
        id_index_from(rules, id, i) >= 0 ==> id_index_from(rules, id, i) >= i && rules[id_index_from(
            rules,
            id,
            i,
        )].id == id,
    decreases rules.len() - i,
{
    if i < rules.len() && rules[i].id != id {
        lemma_id_index_bounds(rules, id, i + 1);
    }
}

pub proof fn lemma_match_index_bounds(rules: Seq<RuleView>, word: Seq<char>, method: u8, i: int)
    requires
        0 <= i <= rules.len(),
    ensures
        -1 <= match_index_from(rules, word, method, i) < rules.len(),
        match_index_from(rules, word, method, i) >= 0 ==> match_index_from(rules, word, method, i)
            >= i && rule_matches(rules[match_index_from(rules, word, method, i)], word, method),
    decreases rules.len() - i,
{
    if i < rules.len() && !rule_matches(rules[i], word, method) {
        lemma_match_index_bounds(rules, word, method, i + 1);
    }
}

/// The table of abbreviation rules, in priority order.
pub struct ShortcutTable {
    rules: Vec<ShortcutRule>,
    next_id: u32,
}

impl View for ShortcutTable {
    type V = Seq<RuleView>;

    closed spec fn view(&self) -> Seq<RuleView> {
        self.rules@.map_values(|r: ShortcutRule| r@)
    }
}

fn chars_eq(a: &Vec<char>, b: &Vec<char>) -> (r: bool)
    ensures
        r == (a@ == b@),
{
    if a.len() != b.len() {
        assert(a@ != b@);
        return false;
    }
    let mut i: usize = 0;
    while i < a.len()
        invariant
            i <= a.len(),
            a@.len() == b@.len(),
            forall|j: int| 0 <= j < i ==> a@[j] == b@[j],
        decreases a.len() - i,
    {
        if a[i] != b[i] {
            return false;
        }
        i = i + 1;
    }
    assert(a@ =~= b@);
    true
}

fn copy_chars(v: &Vec<char>) -> (r: Vec<char>)
    ensures
        r@ == v@,
{
    let mut out: Vec<char> = Vec::new();
    let mut i: usize = 0;
    while i < v.len()
        invariant
            i <= v.len(),
            out@.len() == i,
            forall|j: int| 0 <= j < i ==> out@[j] == v@[j],
        decreases v.len() - i,
    {
        out.push(v[i]);
        i = i + 1;
    }
    assert(out@ =~= v@);
    out
}

impl ShortcutTable {
    /// An empty table.
    pub fn new() -> (r: ShortcutTable)
        ensures
            r@ == Seq::<RuleView>::empty(),
    {
        let t = ShortcutTable { rules: Vec::new(), next_id: 0 };
        proof {
            assert(t@ =~= Seq::<RuleView>::empty());
        }
        t
    }

    /// Number of rules.
    pub fn len(&self) -> (r: usize)
        ensures
            r == self@.len(),
    {
        self.rules.len()
    }

    /// The rule at `i`, in priority order.
    pub fn get(&self, i: usize) -> (r: &ShortcutRule)
        requires
            i < self@.len(),
        ensures
            r@ == self@[i as int],
    {
        &self.rules[i]
    }

    /// Append a rule; returns its identifier.
    pub fn add(&mut self, method: u8, trigger: Vec<char>, output: Vec<char>) -> (id: u32)
        ensures
            final(self)@ == old(self)@.push(
                RuleView { id, method, trigger: trigger@, output: output@ },
            ),
    {
        let id = self.next_id;
        self.next_id = if self.next_id == u32::MAX {
            0
        } else {
            self.next_id + 1
        };
        let ghost tv = trigger@;
        let ghost ov = output@;
        self.rules.push(ShortcutRule { id, method, trigger, output });
        proof {
            assert(self@ =~= old(self)@.push(
                RuleView { id, method, trigger: tv, output: ov },
            ));
        }
        id
    }

    /// Remove the first rule with the given identifier; reports whether one
    /// was there.
    pub fn remove(&mut self, id: u32) -> (r: bool)
        ensures
            ({
                let j = id_index_from(old(self)@, id, 0);
                if j == -1 {
                    !r && final(self)@ == old(self)@
                } else {
                    r && final(self)@ == old(self)@.remove(j)
                }
            }),
    {
        let n = self.rules.len();
        let ghost orig = self@;
        proof {
            lemma_id_index_bounds(self@, id, 0);
        }
        let mut i: usize = 0;
        while i < n
            invariant
                i <= n,
                n == self@.len(),
                self@ == orig,
                orig == old(self)@,
                id_index_from(orig, id, 0) == id_index_from(orig, id, i as int),
            decreases n - i,
        {
            if self.rules[i].id == id {
                let ghost old_rules = self.rules@;
                self.rules.remove(i);
                proof {
                    assert(self.rules@ == old_rules.remove(i as int));
                    assert(self@ =~= orig.remove(i as int));
                    assert(id_index_from(orig, id, 0) == i as int);
                }
                return true;
            }
            i = i + 1;
        }
        false
    }

    /// The edit of the first rule firing on the raw word under `method`, if
    /// any: delete the whole composed word from the screen and insert the
    /// rule's output.  The break character `brk` is part of the interface so
    /// that a policy may distinguish break keys; the rules here fire on any
    /// of them.
    pub fn try_match(&self, raw: &Vec<char>, composed: &Vec<char>, brk: char, method: u8) -> (r:
        Option<ShortcutMatch>)
        requires
            composed@.len() <= u8::MAX,
        ensures
            first_match_index(self@, raw@, method) == -1 <==> r is None,
            r matches Some(m) ==> m.output@ == self@[first_match_index(self@, raw@, method)].output
                && m.backspace == composed@.len(),
    {
        let n = self.rules.len();
        let mut i: usize = 0;
        while i < n
            invariant
                i <= n,
                n == self@.len(),
                composed@.len() <= u8::MAX,
                first_match_index(self@, raw@, method) == match_index_from(
                    self@,
                    raw@,
                    method,
                    i as int,
                ),
            decreases n - i,
        {
            let rule = &self.rules[i];
            if (rule.method == METHOD_ANY || rule.method == method) && chars_eq(
                &rule.trigger,
                raw,
            ) {
                return Some(
                    ShortcutMatch {
                        backspace: composed.len() as u8,
                        output: copy_chars(&rule.output),
                    },
                );
            }
            i = i + 1;
        }
        None
    }
}

} // verus!
