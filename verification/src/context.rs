//! The answer context: an explicit ordered map from variable name to
//! collected value, built incrementally while questions are resolved and
//! read-only afterwards.

use vstd::prelude::*;
use crate::values::{Value, ValueModel};

verus! {

/// Ghost meaning of a sequence of (name, value) pairs: later pairs win.
pub open spec fn pairs_as_map(s: Seq<(String, Value)>) -> Map<Seq<char>, ValueModel>
    decreases s.len(),
{
    if s.len() == 0 {
        Map::empty()
    } else {
        pairs_as_map(s.drop_last()).insert(s.last().0@, s.last().1@)
    }
}

/// The mapping from variable name to collected answer.  Insertion order is
/// kept, because a variable's condition may only read answers collected
/// earlier.
#[derive(Debug)]
pub struct AnswerContext {
    entries: Vec<(String, Value)>,
}

impl View for AnswerContext {
    type V = Map<Seq<char>, ValueModel>;

    closed spec fn view(&self) -> Map<Seq<char>, ValueModel> {
        pairs_as_map(self.entries@)
    }
}

impl AnswerContext {
    /// The pairs in insertion order, for callers that replay the answers.
    pub closed spec fn pairs(&self) -> Seq<(String, Value)> {
        self.entries@
    }

    /// An empty context: no variable has been answered yet.
    pub fn new() -> (r: AnswerContext)
        ensures
            r@ == Map::<Seq<char>, ValueModel>::empty(),
            r.pairs().len() == 0,
    {
        AnswerContext { entries: Vec::new() }
    }

    /// Record an answer under a variable name; a later answer for the same
    /// name replaces the earlier one.
    pub fn insert(&mut self, name: String, value: Value)
        ensures
            final(self)@ == old(self)@.insert(name@, value@),
            final(self).pairs() == old(self).pairs().push((name, value)),
    {
        let ghost old_entries = self.entries@;
        self.entries.push((name, value));
        proof {
            assert(self.entries@.drop_last() == old_entries);
        }
    }

    /// Look up the answer collected under `name`, if any.
    pub fn get(&self, name: &str) -> (r: Option<&Value>)
        ensures
            match r {
                Some(v) => self@.contains_key(name@) && v@ == self@[name@],
                None => !self@.contains_key(name@),
            },
    {
        let n = self.entries.len();
        let mut i = n;
        while i > 0
            invariant
                i <= n,
                n == self.entries@.len(),
                forall|j: int| i <= j < n ==> self.entries@[j].0@ != name@,
            decreases i,
        {
            i = i - 1;
            if string_eq_str(&self.entries[i].0, name) {
                proof {
                    lemma_pairs_as_map_found(self.entries@, i as int, name@);
                }
                return Some(&self.entries[i].1);
            }
        }
        proof {
            lemma_pairs_as_map_absent(self.entries@, name@);
        }
        None
    }

    /// Whether an answer was collected under `name`.
    pub fn contains(&self, name: &str) -> (r: bool)
        ensures
            r == self@.contains_key(name@),
    {
        self.get(name).is_some()
    }

    /// How many answers were recorded, replacements included.
    pub fn count(&self) -> (r: usize)
        ensures
            r == self.pairs().len(),
    {
        self.entries.len()
    }

    /// The pair recorded at position `i`.
    pub fn pair_at(&self, i: usize) -> (r: &(String, Value))
        requires
            i < self.pairs().len(),
        ensures
            *r == self.pairs()[i as int],
    {
        &self.entries[i]
    }

    /// The mapping a context denotes is the one its recorded pairs build
    /// up, later pairs winning.
    pub proof fn lemma_view_is_pairs(&self)
        ensures
            self@ == pairs_as_map(self.pairs()),
    {
    }
}

/// If position `i` holds `name` and no later pair does, the map holds the
/// value at `i`.
proof fn lemma_pairs_as_map_found(s: Seq<(String, Value)>, i: int, name: Seq<char>)
    requires
        0 <= i < s.len(),
        s[i].0@ == name,
        forall|j: int| i < j < s.len() ==> s[j].0@ != name,
    ensures
        pairs_as_map(s).contains_key(name),
        pairs_as_map(s)[name] == s[i].1@,
    decreases s.len(),
{
    if i == s.len() - 1 {
    } else {
        lemma_pairs_as_map_found(s.drop_last(), i, name);
    }
}

/// If no pair holds `name`, neither does the map.
proof fn lemma_pairs_as_map_absent(s: Seq<(String, Value)>, name: Seq<char>)
    requires
        forall|j: int| 0 <= j < s.len() ==> s[j].0@ != name,
    ensures
        !pairs_as_map(s).contains_key(name),
    decreases s.len(),
{
    if s.len() > 0 {
        lemma_pairs_as_map_absent(s.drop_last(), name);
    }
}

/// Compare an owned string with a borrowed one, character for character.
fn string_eq_str(a: &String, b: &str) -> (r: bool)
    ensures
        r == (a@ == b@),
{
    crate::text::str_eq(a.as_str(), b)
}

} // verus!
