//! Environment variables handed to a spawned command.

use crate::pairs::{has_key, keys_unique, lemma_pairs_onto, lemma_pairs_union, lemma_pairs_update, pairs_map, pairs_onto};
use vstd::prelude::*;

verus! {

/// A set of environment variables: each key at most once, in the order in
/// which the keys were first inserted.
#[derive(Debug, Clone)]
pub struct EnvVariables {
    entries: Vec<(String, String)>,
}

/// The mathematical pairs of a vector of string pairs.
pub open spec fn string_pairs(v: Seq<(String, String)>) -> Seq<(Seq<char>, Seq<char>)> {
    v.map_values(|p: (String, String)| (p.0@, p.1@))
}

impl View for EnvVariables {
    type V = Map<Seq<char>, Seq<char>>;

    closed spec fn view(&self) -> Map<Seq<char>, Seq<char>> {
        pairs_map(self.pairs())
    }
}

impl Default for EnvVariables {
    fn default() -> (r: EnvVariables)
        ensures
            r.wf(),
            r@ == Map::<Seq<char>, Seq<char>>::empty(),
    {
        EnvVariables::new()
    }
}

impl EnvVariables {
    /// The variables as key-value pairs, in order.
    pub closed spec fn pairs(&self) -> Seq<(Seq<char>, Seq<char>)> {
        string_pairs(self.entries@)
    }

    /// Each key stands at most once.
    pub closed spec fn wf(&self) -> bool {
        keys_unique(self.pairs())
    }

    /// The empty set of variables.
    pub fn new() -> (r: EnvVariables)
        ensures
            r.wf(),
            r@ == Map::<Seq<char>, Seq<char>>::empty(),
            r.pairs() == Seq::<(Seq<char>, Seq<char>)>::empty(),
    {
        let r = EnvVariables { entries: Vec::new() };
        assert(r.pairs() =~= Seq::<(Seq<char>, Seq<char>)>::empty());
        r
    }

    /// The number of variables.
    pub fn len(&self) -> (r: usize)
        ensures
            r == self.pairs().len(),
    {
        self.entries.len()
    }

    /// The variables as pairs of strings, in order.
    pub fn to_pairs(&self) -> (r: Vec<(String, String)>)
        ensures
            string_pairs(r@) == self.pairs(),
    {
        let mut r: Vec<(String, String)> = Vec::new();
        let mut i: usize = 0;
        while i < self.entries.len()
            invariant
                i <= self.entries@.len(),
                r@.len() == i,
                forall|j: int|
                    0 <= j < i ==> (#[trigger] r@[j]).0@ == self.entries@[j].0@ && r@[j].1@
                        == self.entries@[j].1@,
            decreases self.entries@.len() - i,
        {
            r.push((self.entries[i].0.clone(), self.entries[i].1.clone()));
            i = i + 1;
        }
        assert(string_pairs(r@) =~= self.pairs());
        r
    }

    /// The view has one key for each pair, with that pair's value.
    pub proof fn lemma_view(&self)
        requires
            self.wf(),
        ensures
            forall|k: Seq<char>| #[trigger] self@.contains_key(k) <==> has_key(self.pairs(), k),
            forall|i: int|
                0 <= i < self.pairs().len() ==> #[trigger] self@[self.pairs()[i].0]
                    == self.pairs()[i].1,
    {
        lemma_pairs_onto(Map::<Seq<char>, Seq<char>>::empty(), self.pairs());
    }

    fn find(&self, key: &String) -> (r: Option<usize>)
        requires
            self.wf(),
        ensures
            match r {
                Some(i) => i < self.pairs().len() && self.pairs()[i as int].0 == key@,
                None => !has_key(self.pairs(), key@),
            },
    {
        let mut i: usize = 0;
        while i < self.entries.len()
            invariant
                i <= self.entries@.len(),
                self.pairs().len() == self.entries@.len(),
                forall|j: int| 0 <= j < i ==> #[trigger] self.pairs()[j].0 != key@,
            decreases self.entries@.len() - i,
        {
            if self.entries[i].0 == *key {
                return Some(i);
            }
            i = i + 1;
        }
        None
    }

    /// The value of a variable, if it is set.
    pub fn get(&self, key: &String) -> (r: Option<&String>)
        requires
            self.wf(),
        ensures
            match r {
                Some(v) => self@.contains_key(key@) && v@ == self@[key@],
                None => !self@.contains_key(key@),
            },
    {
        proof {
            self.lemma_view();
        }
        match self.find(key) {
            Some(i) => Some(&self.entries[i].1),
            None => None,
        }
    }

    /// Sets a variable, overwriting the value it had; returns that value.
    pub fn insert(&mut self, key: String, value: String) -> (r: Option<String>)
        requires
            old(self).wf(),
        ensures
            final(self).wf(),
            final(self)@ == old(self)@.insert(key@, value@),
            final(self).pairs() == pairs_insert(old(self).pairs(), key@, value@),
            match r {
                Some(v) => old(self)@.contains_key(key@) && v@ == old(self)@[key@],
                None => !old(self)@.contains_key(key@),
            },
    {
        proof {
            self.lemma_view();
        }
        match self.find(&key) {
            Some(i) => {
                let ghost before = self.pairs();
                let old_value = self.entries[i].1.clone();
                self.entries.set(i, (key, value));
                proof {
                    lemma_pairs_update(Map::empty(), before, i as int, value@);
                    assert(self.pairs() =~= before.update(i as int, (before[i as int].0, value@)));
                    let j = choose|j: int| 0 <= j < before.len() && #[trigger] before[j].0 == key@;
                    assert(j == i);
                }
                Some(old_value)
            },
            None => {
                let ghost before = self.pairs();
                self.entries.push((key, value));
                proof {
                    assert(self.pairs() =~= before.push((key@, value@)));
                    assert(self.pairs().drop_last() =~= before);
                    assert forall|a: int, b: int|
                        0 <= a < b < self.pairs().len() implies #[trigger] self.pairs()[a].0
                        != #[trigger] self.pairs()[b].0 by {
                        if b == before.len() {
                            assert(before[a].0 != key@);
                        }
                    }
                }
                None
            },
        }
    }

    /// Sets every variable of `other`, in order; its values win over the
    /// ones that were set before.
    pub fn extend(&mut self, other: EnvVariables)
        requires
            old(self).wf(),
            other.wf(),
        ensures
            final(self).wf(),
            final(self)@ == pairs_onto(old(self)@, other.pairs()),
            final(self)@ == old(self)@.union_prefer_right(other@),
    {
        self.extend_from(&other);
    }

    /// Sets every variable of `other`, in order, as [`EnvVariables::extend`]
    /// does, leaving `other` to the caller.
    pub fn extend_from(&mut self, other: &EnvVariables)
        requires
            old(self).wf(),
            other.wf(),
        ensures
            final(self).wf(),
            final(self)@ == pairs_onto(old(self)@, other.pairs()),
            final(self)@ == old(self)@.union_prefer_right(other@),
    {
        let ghost start = self@;
        let ghost ps = other.pairs();
        let n = other.entries.len();
        let mut i: usize = 0;
        while i < n
            invariant
                self.wf(),
                other.wf(),
                ps == other.pairs(),
                n == ps.len(),
                i <= n,
                self@ == pairs_onto(start, ps.take(i as int)),
            decreases n - i,
        {
            let key = other.entries[i].0.clone();
            let value = other.entries[i].1.clone();
            self.insert(key, value);
            proof {
                assert(ps.take(i + 1).drop_last() =~= ps.take(i as int));
            }
            i = i + 1;
        }
        proof {
            assert(ps.take(n as int) =~= ps);
            lemma_pairs_union(start, ps);
        }
    }
}

/// What `subst::substitute` makes of `template` with `variables`: the text
/// with each variable reference replaced, or nothing where it fails (a
/// reference without a default, `${NAME:default}`, to a variable that is
/// not set, or a malformed reference).
pub uninterp spec fn substituted(
    template: Seq<char>,
    variables: Map<Seq<char>, Seq<char>>,
) -> Option<Seq<char>>;

impl EnvVariables {
    /// Relies on `subst::substitute`: it expands the `$NAME`, `${NAME}` and
    /// `${NAME:default}` references of a template from a map of variables,
    /// the default standing in for a variable that the map lacks, and fails
    /// where a reference is malformed or names, without a default, a
    /// variable that the map lacks. Its result depends on the template and
    /// the map alone.
    #[verifier::external_body]
    pub(crate) fn substitute(&self, template: &String) -> (r: Option<String>)
        requires
            self.wf(),
        ensures
            r is Some <==> substituted(template@, self@) is Some,
            r is Some ==> r->0@ == substituted(template@, self@)->0,
    {
        let map: std::collections::BTreeMap<String, String> = self.entries.iter().cloned().collect();
        subst::substitute(template, &map).ok()
    }
}

/// The pairs after setting `k` to `v`: in place where `k` stands, else at
/// the end.
pub open spec fn pairs_insert<K, V>(s: Seq<(K, V)>, k: K, v: V) -> Seq<(K, V)> {
    if has_key(s, k) {
        let i = choose|i: int| 0 <= i < s.len() && #[trigger] s[i].0 == k;
        s.update(i, (k, v))
    } else {
        s.push((k, v))
    }
}

} // verus!
