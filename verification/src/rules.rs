//! The table of substitutions that drives a transliteration.

use vstd::prelude::*;

verus! {

/// The table that a list of rules stands for: each rule maps a cluster to
/// the string written in its place, and a later rule for the same cluster
/// takes the place of an earlier one.
spec fn table_of(rules: Seq<(String, String)>) -> Map<Seq<char>, Seq<char>>
    decreases rules.len(),
{
    if rules.len() == 0 {
        Map::empty()
    } else {
        table_of(rules.drop_last()).insert(rules.last().0@, rules.last().1@)
    }
}

/// The table gives for a cluster what the last rule for it says.
proof fn lemma_table_hit(rules: Seq<(String, String)>, at: int, key: Seq<char>)
    requires
        0 <= at < rules.len(),
        rules[at].0@ == key,
        forall|j: int| at < j < rules.len() ==> (#[trigger] rules[j]).0@ != key,
    ensures
        table_of(rules).contains_key(key),
        table_of(rules)[key] == rules[at].1@,
    decreases rules.len(),
{
    if at < rules.len() - 1 {
        lemma_table_hit(rules.drop_last(), at, key);
    }
}

/// The table holds no cluster that no rule names.
proof fn lemma_table_miss(rules: Seq<(String, String)>, key: Seq<char>)
    requires
        forall|j: int| 0 <= j < rules.len() ==> (#[trigger] rules[j]).0@ != key,
    ensures
        !table_of(rules).contains_key(key),
    decreases rules.len(),
{
    if rules.len() > 0 {
        lemma_table_miss(rules.drop_last(), key);
    }
}

/// A mapping from grapheme clusters to the strings that replace them.
pub struct RuleMap {
    rules: Vec<(String, String)>,
}

impl View for RuleMap {
    type V = Map<Seq<char>, Seq<char>>;

    /// The table as a map from clusters to their substitutes.
    closed spec fn view(&self) -> Map<Seq<char>, Seq<char>> {
        table_of(self.rules@)
    }
}

impl RuleMap {
    /// A table without rules.
    pub fn new() -> (table: RuleMap)
        ensures
            table@ == Map::<Seq<char>, Seq<char>>::empty(),
    {
        RuleMap { rules: Vec::new() }
    }

    /// Lets `value` stand for the cluster `key` from now on.
    pub fn insert(&mut self, key: String, value: String)
        ensures
            final(self)@ == old(self)@.insert(key@, value@),
    {
        self.rules.push((key, value));
        assert(self.rules@.drop_last() =~= old(self).rules@);
    }

    /// The string that stands for the cluster `key`, if the table has one.
    pub fn get(&self, key: &String) -> (found: Option<&String>)
        ensures
            found is Some <==> self@.contains_key(key@),
            found matches Some(value) ==> value@ == self@[key@],
    {
        let mut k: usize = self.rules.len();
        while k > 0
            invariant
                k <= self.rules.len(),
                forall|j: int| k <= j < self.rules.len() ==> (#[trigger] self.rules[j]).0@ != key@,
            decreases k,
        {
            k = k - 1;
            if self.rules[k].0 == *key {
                proof {
                    lemma_table_hit(self.rules@, k as int, key@);
                }
                return Some(&self.rules[k].1);
            }
        }
        proof {
            lemma_table_miss(self.rules@, key@);
        }
        None
    }

    /// Whether the table has a rule for the cluster `key`.
    pub fn contains(&self, key: &String) -> (found: bool)
        ensures
            found == self@.contains_key(key@),
    {
        self.get(key).is_some()
    }
}

} // verus!
