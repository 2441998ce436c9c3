//! Task variables: their names, their environment keys and their values.

use crate::env::EnvVariables;
use crate::pairs::{has_key, keys_unique, lemma_pairs_onto, lemma_pairs_union, lemma_pairs_update, pairs_map, pairs_onto};
use vstd::prelude::*;
use vstd::string::*;

verus! {

/// The prefix that every environment key derived from a variable carries.
pub open spec fn env_prefix() -> Seq<char> {
    seq!['Z', 'E', 'D', '_']
}

/// What a [`VariableName`] stands for, as a mathematical value.
pub enum VariableKey {
    File,
    WorktreeRoot,
    Symbol,
    Row,
    Column,
    SelectedText,
    Custom(Seq<char>),
}

impl VariableKey {
    /// The environment key of a variable: the prefix, then the variant's
    /// name in upper snake case, or the custom name as it is.
    pub open spec fn env_key(self) -> Seq<char> {
        env_prefix() + match self {
            VariableKey::File => seq!['F', 'I', 'L', 'E'],
            VariableKey::WorktreeRoot => seq![
                'W', 'O', 'R', 'K', 'T', 'R', 'E', 'E', '_', 'R', 'O', 'O', 'T'
            ],
            VariableKey::Symbol => seq!['S', 'Y', 'M', 'B', 'O', 'L'],
            VariableKey::Row => seq!['R', 'O', 'W'],
            VariableKey::Column => seq!['C', 'O', 'L', 'U', 'M', 'N'],
            VariableKey::SelectedText => seq![
                'S', 'E', 'L', 'E', 'C', 'T', 'E', 'D', '_', 'T', 'E', 'X', 'T'
            ],
            VariableKey::Custom(name) => name,
        }
    }

    /// A custom variable has a name that is not empty.
    pub open spec fn valid(self) -> bool {
        match self {
            VariableKey::Custom(name) => name.len() > 0,
            _ => true,
        }
    }

    /// The text by which templates refer to the variable: `$KEY`, or
    /// `${KEY}` for a custom variable, whose name may hold characters that
    /// a bare reference would not take.
    pub open spec fn template_value(self) -> Seq<char> {
        match self {
            VariableKey::Custom(_) => seq!['$', '{'] + self.env_key() + seq!['}'],
            _ => seq!['$'] + self.env_key(),
        }
    }
}

/// Variables, available for use in a task context when a task gets turned
/// into a real command.
#[derive(Debug, Clone)]
pub enum VariableName {
    /// An absolute path of the currently opened file.
    File,
    /// An absolute path of the currently opened worktree, that contains the file.
    WorktreeRoot,
    /// A symbol text, that contains latest cursor/selection position.
    Symbol,
    /// A row with the latest cursor/selection position.
    Row,
    /// A column with the latest cursor/selection position.
    Column,
    /// Text from the latest selection.
    SelectedText,
    /// Custom variable, provided by a plugin or another external source.
    /// Its environment key carries the same prefix as the others.
    Custom(String),
}

impl View for VariableName {
    type V = VariableKey;

    open spec fn view(&self) -> VariableKey {
        match self {
            VariableName::File => VariableKey::File,
            VariableName::WorktreeRoot => VariableKey::WorktreeRoot,
            VariableName::Symbol => VariableKey::Symbol,
            VariableName::Row => VariableKey::Row,
            VariableName::Column => VariableKey::Column,
            VariableName::SelectedText => VariableKey::SelectedText,
            VariableName::Custom(s) => VariableKey::Custom(s@),
        }
    }
}

impl VariableName {
    /// Whether the variable is a custom one.
    pub fn is_custom(&self) -> (r: bool)
        ensures
            r == (self@ is Custom),
    {
        match self {
            VariableName::Custom(_) => true,
            _ => false,
        }
    }

    /// Whether two names denote the same variable.
    pub fn same_as(&self, other: &VariableName) -> (r: bool)
        ensures
            r == (self@ == other@),
    {
        match self {
            VariableName::File => match other {
                VariableName::File => true,
                _ => false,
            },
            VariableName::WorktreeRoot => match other {
                VariableName::WorktreeRoot => true,
                _ => false,
            },
            VariableName::Symbol => match other {
                VariableName::Symbol => true,
                _ => false,
            },
            VariableName::Row => match other {
                VariableName::Row => true,
                _ => false,
            },
            VariableName::Column => match other {
                VariableName::Column => true,
                _ => false,
            },
            VariableName::SelectedText => match other {
                VariableName::SelectedText => true,
                _ => false,
            },
            VariableName::Custom(a) => match other {
                VariableName::Custom(b) => a.eq(b),
                _ => false,
            },
        }
    }

    /// The environment key under which the variable's value is exported.
    pub fn to_environment_key(&self) -> (r: String)
        requires
            self@.valid(),
        ensures
            r@ == self@.env_key(),
    {
        let mut r = String::from_str("ZED_");
        proof {
            reveal_strlit("ZED_");
        }
        match self {
            VariableName::File => {
                proof {
                    reveal_strlit("FILE");
                }
                r.append("FILE");
            },
            VariableName::WorktreeRoot => {
                proof {
                    reveal_strlit("WORKTREE_ROOT");
                }
                r.append("WORKTREE_ROOT");
            },
            VariableName::Symbol => {
                proof {
                    reveal_strlit("SYMBOL");
                }
                r.append("SYMBOL");
            },
            VariableName::Row => {
                proof {
                    reveal_strlit("ROW");
                }
                r.append("ROW");
            },
            VariableName::Column => {
                proof {
                    reveal_strlit("COLUMN");
                }
                r.append("COLUMN");
            },
            VariableName::SelectedText => {
                proof {
                    reveal_strlit("SELECTED_TEXT");
                }
                r.append("SELECTED_TEXT");
            },
            VariableName::Custom(s) => {
                r.append(s.as_str());
            },
        }
        assert(r@ =~= self@.env_key());
        r
    }

    /// Generates a `$VARIABLE`-like string value to be used in templates.
    /// Custom variables are wrapped in `${}` to avoid substitution issues
    /// with whitespace.
    pub fn template_value(&self) -> (r: String)
        requires
            self@.valid(),
        ensures
            r@ == self@.template_value(),
    {
        let key = self.to_environment_key();
        let mut r = String::new();
        match self {
            VariableName::Custom(_) => {
                proof {
                    reveal_strlit("${");
                    reveal_strlit("}");
                }
                r.append("${");
                r.append(key.as_str());
                r.append("}");
            },
            _ => {
                proof {
                    reveal_strlit("$");
                }
                r.append("$");
                r.append(key.as_str());
            },
        }
        assert(r@ =~= self@.template_value());
        r
    }
}

/// Container for the variables that describe the editor's state at the time
/// a task is requested: each variable at most once, with its value.
#[derive(Debug, Clone)]
pub struct TaskVariables {
    entries: Vec<(VariableName, String)>,
}

impl View for TaskVariables {
    type V = Map<VariableKey, Seq<char>>;

    closed spec fn view(&self) -> Map<VariableKey, Seq<char>> {
        pairs_map(self.pairs())
    }
}

impl Default for TaskVariables {
    fn default() -> (r: TaskVariables)
        ensures
            r.wf(),
            r@ == Map::<VariableKey, Seq<char>>::empty(),
    {
        TaskVariables::new()
    }
}

impl TaskVariables {
    /// The variables and their values, in the order of first insertion.
    pub closed spec fn pairs(&self) -> Seq<(VariableKey, Seq<char>)> {
        self.entries@.map_values(|p: (VariableName, String)| (p.0@, p.1@))
    }

    /// Each variable stands at most once.
    pub closed spec fn wf(&self) -> bool {
        &&& keys_unique(self.pairs())
        &&& forall|i: int| 0 <= i < self.pairs().len() ==> (#[trigger] self.pairs()[i]).0.valid()
    }

    /// The empty container.
    pub fn new() -> (r: TaskVariables)
        ensures
            r.wf(),
            r@ == Map::<VariableKey, Seq<char>>::empty(),
    {
        let r = TaskVariables { entries: Vec::new() };
        assert(r.pairs() =~= Seq::<(VariableKey, Seq<char>)>::empty());
        r
    }

    /// The view has one key for each pair, with that pair's value.
    pub proof fn lemma_view(&self)
        requires
            self.wf(),
        ensures
            forall|k: VariableKey| #[trigger] self@.contains_key(k) <==> has_key(self.pairs(), k),
            forall|i: int|
                0 <= i < self.pairs().len() ==> #[trigger] self@[self.pairs()[i].0]
                    == self.pairs()[i].1,
    {
        lemma_pairs_onto(Map::<VariableKey, Seq<char>>::empty(), self.pairs());
    }

    fn find(&self, name: &VariableName) -> (r: Option<usize>)
        requires
            self.wf(),
        ensures
            match r {
                Some(i) => i < self.pairs().len() && self.pairs()[i as int].0 == name@,
                None => !has_key(self.pairs(), name@),
            },
    {
        let mut i: usize = 0;
        while i < self.entries.len()
            invariant
                i <= self.entries@.len(),
                self.pairs().len() == self.entries@.len(),
                forall|j: int| 0 <= j < i ==> #[trigger] self.pairs()[j].0 != name@,
            decreases self.entries@.len() - i,
        {
            if self.entries[i].0.same_as(name) {
                return Some(i);
            }
            i = i + 1;
        }
        None
    }

    /// The value of a variable, if it is set.
    pub fn get(&self, name: &VariableName) -> (r: Option<&String>)
        requires
            self.wf(),
        ensures
            match r {
                Some(v) => self@.contains_key(name@) && v@ == self@[name@],
                None => !self@.contains_key(name@),
            },
    {
        proof {
            self.lemma_view();
        }
        match self.find(name) {
            Some(i) => Some(&self.entries[i].1),
            None => None,
        }
    }

    /// Inserts another variable into the container, overwriting the existing
    /// one if it already exists; in that case the old value is returned.
    pub fn insert(&mut self, variable: VariableName, value: String) -> (r: Option<String>)
        requires
            old(self).wf(),
            variable@.valid(),
        ensures
            final(self).wf(),
            final(self)@ == old(self)@.insert(variable@, value@),
            match r {
                Some(v) => old(self)@.contains_key(variable@) && v@ == old(self)@[variable@],
                None => !old(self)@.contains_key(variable@),
            },
    {
        proof {
            self.lemma_view();
        }
        match self.find(&variable) {
            Some(i) => {
                let ghost before = self.pairs();
                let ghost key = variable@;
                let old_value = self.entries[i].1.clone();
                self.entries.set(i, (variable, value));
                proof {
                    lemma_pairs_update(Map::empty(), before, i as int, value@);
                    assert(self.pairs() =~= before.update(i as int, (key, value@)));
                }
                Some(old_value)
            },
            None => {
                let ghost before = self.pairs();
                let ghost key = variable@;
                self.entries.push((variable, value));
                proof {
                    assert(self.pairs() =~= before.push((key, value@)));
                    assert(self.pairs().drop_last() =~= before);
                    assert forall|a: int, b: int|
                        0 <= a < b < self.pairs().len() implies #[trigger] self.pairs()[a].0
                        != #[trigger] self.pairs()[b].0 by {
                        if b == before.len() {
                            assert(before[a].0 != key);
                        }
                    }
                }
                None
            },
        }
    }

    /// Extends the container with another one, overwriting the existing
    /// variables on collision: the same as inserting the pairs of `other`
    /// one at a time, in order.
    pub fn extend(&mut self, other: Self)
        requires
            old(self).wf(),
            forall|i: int| 0 <= i < other.pairs().len() ==> (#[trigger] other.pairs()[i]).0.valid(),
        ensures
            final(self).wf(),
            final(self)@ == pairs_onto(old(self)@, other.pairs()),
            other.wf() ==> final(self)@ == old(self)@.union_prefer_right(other@),
    {
        let ghost start = self@;
        let ghost ps = other.pairs();
        let mut entries = other.entries;
        let ghost n = ps.len();
        while entries.len() > 0
            invariant
                self.wf(),
                n == ps.len(),
                entries@.len() <= n,
                forall|j: int|
                    0 <= j < entries@.len() ==> (#[trigger] entries@[j].0@, entries@[j].1@) == ps[n
                        - entries@.len() + j],
                self@ == pairs_onto(start, ps.take(n - entries@.len())),
                forall|i: int| 0 <= i < n ==> (#[trigger] ps[i]).0.valid(),
            decreases entries@.len(),
        {
            let ghost taken = n - entries@.len();
            let (name, value) = entries.remove(0);
            self.insert(name, value);
            proof {
                assert(ps.take(taken + 1).drop_last() =~= ps.take(taken));
            }
        }
        proof {
            assert(ps.take(n as int) =~= ps);
            if keys_unique(ps) {
                lemma_pairs_union(start, ps);
            }
        }
    }

    /// A container that holds the given pairs, a later pair overriding an
    /// earlier one for the same variable.
    pub fn from_pairs(pairs: Vec<(VariableName, String)>) -> (r: TaskVariables)
        requires
            forall|i: int| 0 <= i < pairs@.len() ==> (#[trigger] pairs@[i]).0@.valid(),
        ensures
            r.wf(),
            r@ == pairs_map(pairs@.map_values(|p: (VariableName, String)| (p.0@, p.1@))),
    {
        let mut r = TaskVariables::new();
        let other = TaskVariables { entries: pairs };
        assert forall|i: int| 0 <= i < other.pairs().len() implies (#[trigger] other.pairs()[i]).0.valid() by {
            assert(other.pairs()[i].0 == pairs@[i].0@);
        }
        r.extend(other);
        r
    }

    /// Converts the container into environment variables: each variable's
    /// environment key with its value. Where a custom variable's key is the
    /// key of a built-in variable that is also set, the built-in one wins.
    /// The result depends on the variables and their values alone, not on
    /// the order in which they were inserted.
    pub fn into_env_variables(self) -> (r: EnvVariables)
        requires
            self.wf(),
        ensures
            r.wf(),
            r@ == env_of(self@),
    {
        let ghost ps = self.pairs();
        let mut r = EnvVariables::new();
        let n = self.entries.len();
        let mut i: usize = 0;
        while i < n
            invariant
                r.wf(),
                n == self.entries@.len(),
                ps == self.pairs(),
                self.wf(),
                i <= n,
                forall|e: Seq<char>|
                    #[trigger] r@.contains_key(e) <==> exists|j: int|
                        0 <= j < i && #[trigger] custom_at(ps, j, e),
                forall|j: int|
                    0 <= j < i && #[trigger] ps[j].0 is Custom ==> r@[ps[j].0.env_key()]
                        == ps[j].1,
            decreases n - i,
        {
            if self.entries[i].0.is_custom() {
                let key = self.entries[i].0.to_environment_key();
                let value = self.entries[i].1.clone();
                let ghost before = r@;
                r.insert(key, value);
                proof {
                    assert(custom_at(ps, i as int, key@));
                    assert forall|j: int|
                        0 <= j < i + 1 && #[trigger] ps[j].0 is Custom implies r@[ps[j].0.env_key()]
                        == ps[j].1 by {
                        if j < i && ps[j].0.env_key() == key@ {
                            lemma_custom_key_injective(ps[j].0, ps[i as int].0);
                        }
                    }
                }
            }
            i = i + 1;
        }
        let mut i: usize = 0;
        while i < n
            invariant
                r.wf(),
                n == self.entries@.len(),
                ps == self.pairs(),
                self.wf(),
                i <= n,
                forall|e: Seq<char>|
                    #[trigger] r@.contains_key(e) <==> (exists|j: int|
                        0 <= j < n && #[trigger] custom_at(ps, j, e)) || (exists|j: int|
                        0 <= j < i && #[trigger] builtin_at(ps, j, e)),
                forall|j: int|
                    0 <= j < i && !(#[trigger] ps[j].0 is Custom) ==> r@[ps[j].0.env_key()]
                        == ps[j].1,
                forall|j: int|
                    0 <= j < n && #[trigger] ps[j].0 is Custom && !(exists|b: int|
                        0 <= b < i && #[trigger] builtin_at(ps, b, ps[j].0.env_key()))
                        ==> r@[ps[j].0.env_key()] == ps[j].1,
            decreases n - i,
        {
            if !self.entries[i].0.is_custom() {
                let key = self.entries[i].0.to_environment_key();
                let value = self.entries[i].1.clone();
                r.insert(key, value);
                proof {
                    assert(builtin_at(ps, i as int, key@));
                    assert forall|j: int|
                        0 <= j < i + 1 && !(#[trigger] ps[j].0 is Custom) implies r@[ps[j].0.env_key()]
                        == ps[j].1 by {
                        if j < i && ps[j].0.env_key() == key@ {
                            lemma_env_key_injective(ps[j].0, ps[i as int].0);
                        }
                    }
                    assert forall|j: int|
                        0 <= j < n && #[trigger] ps[j].0 is Custom && !(exists|b: int|
                            0 <= b < i + 1 && #[trigger] builtin_at(ps, b, ps[j].0.env_key()))
                        implies r@[ps[j].0.env_key()] == ps[j].1 by {
                        assert(ps[j].0.env_key() != key@ ) by {
                            if ps[j].0.env_key() == key@ {
                                assert(builtin_at(ps, i as int, ps[j].0.env_key()));
                            }
                        }
                    }
                }
            }
            i = i + 1;
        }
        proof {
            self.lemma_env_of(r@);
        }
        r
    }

    proof fn lemma_env_of(&self, env: Map<Seq<char>, Seq<char>>)
        requires
            self.wf(),
            forall|e: Seq<char>|
                #[trigger] env.contains_key(e) <==> (exists|j: int|
                    0 <= j < self.pairs().len() && #[trigger] custom_at(self.pairs(), j, e)) || (
                exists|j: int| 0 <= j < self.pairs().len() && #[trigger] builtin_at(self.pairs(), j, e)),
            forall|j: int|
                0 <= j < self.pairs().len() && !(#[trigger] self.pairs()[j].0 is Custom)
                    ==> env[self.pairs()[j].0.env_key()] == self.pairs()[j].1,
            forall|j: int|
                0 <= j < self.pairs().len() && #[trigger] self.pairs()[j].0 is Custom && !(exists|
                    b: int,
                |
                    0 <= b < self.pairs().len() && #[trigger] builtin_at(
                        self.pairs(),
                        b,
                        self.pairs()[j].0.env_key(),
                    )) ==> env[self.pairs()[j].0.env_key()] == self.pairs()[j].1,
        ensures
            env == env_of(self@),
    {
        let ps = self.pairs();
        let m = self@;
        self.lemma_view();
        let target = env_of(m);
        assert forall|e: Seq<char>| env.contains_key(e) <==> target.contains_key(e) by {
            if env.contains_key(e) {
                if exists|j: int| 0 <= j < ps.len() && #[trigger] custom_at(ps, j, e) {
                    let j = choose|j: int| 0 <= j < ps.len() && #[trigger] custom_at(ps, j, e);
                    assert(m.contains_key(ps[j].0));
                } else {
                    let j = choose|j: int| 0 <= j < ps.len() && #[trigger] builtin_at(ps, j, e);
                    assert(m.contains_key(ps[j].0));
                }
            }
            if target.contains_key(e) {
                let k = choose|k: VariableKey| m.contains_key(k) && k.env_key() == e;
                assert(has_key(ps, k));
                let j = choose|j: int| 0 <= j < ps.len() && #[trigger] ps[j].0 == k;
                if k is Custom {
                    assert(custom_at(ps, j, e));
                } else {
                    assert(builtin_at(ps, j, e));
                }
            }
        }
        assert forall|e: Seq<char>| #[trigger] env.contains_key(e) implies env[e] == target[e] by {
            if exists|k: VariableKey| builtin_with_key(m, e, k) {
                let k = choose|k: VariableKey| builtin_with_key(m, e, k);
                assert(has_key(ps, k));
                let j = choose|j: int| 0 <= j < ps.len() && #[trigger] ps[j].0 == k;
                assert(!(ps[j].0 is Custom));
            } else {
                let k = choose|k: VariableKey| m.contains_key(k) && k.env_key() == e;
                assert(has_key(ps, k));
                let j = choose|j: int| 0 <= j < ps.len() && #[trigger] ps[j].0 == k;
                if !(k is Custom) {
                    assert(builtin_with_key(m, e, k));
                }
                assert(ps[j].0 is Custom);
                assert forall|b: int| 0 <= b < ps.len() implies !#[trigger] builtin_at(ps, b, e) by {
                    if builtin_at(ps, b, e) {
                        assert(m.contains_key(ps[b].0));
                        assert(builtin_with_key(m, e, ps[b].0));
                    }
                }
            }
        }
        assert(env =~= target);
    }
}

/// The `j`th pair is of a custom variable whose environment key is `e`.
pub open spec fn custom_at(ps: Seq<(VariableKey, Seq<char>)>, j: int, e: Seq<char>) -> bool {
    ps[j].0 is Custom && ps[j].0.env_key() == e
}

/// The `j`th pair is of a built-in variable whose environment key is `e`.
pub open spec fn builtin_at(ps: Seq<(VariableKey, Seq<char>)>, j: int, e: Seq<char>) -> bool {
    !(ps[j].0 is Custom) && ps[j].0.env_key() == e
}

/// `k` is a built-in variable of `m` whose environment key is `e`.
pub open spec fn builtin_with_key(m: Map<VariableKey, Seq<char>>, e: Seq<char>, k: VariableKey) -> bool {
    m.contains_key(k) && !(k is Custom) && k.env_key() == e
}

/// The environment variables that task variables turn into: the key of
/// each variable, with its value. A built-in variable wins over a custom
/// one with the same key.
pub open spec fn env_of(m: Map<VariableKey, Seq<char>>) -> Map<Seq<char>, Seq<char>> {
    Map::new(
        |e: Seq<char>| exists|k: VariableKey| m.contains_key(k) && k.env_key() == e,
        |e: Seq<char>|
            if exists|k: VariableKey| builtin_with_key(m, e, k) {
                m[choose|k: VariableKey| builtin_with_key(m, e, k)]
            } else {
                m[choose|k: VariableKey| m.contains_key(k) && k.env_key() == e]
            },
    )
}

/// Custom variables with the same environment key are the same variable.
pub proof fn lemma_custom_key_injective(a: VariableKey, b: VariableKey)
    requires
        a is Custom,
        b is Custom,
        a.env_key() == b.env_key(),
    ensures
        a == b,
{
    let na = a->Custom_0;
    let nb = b->Custom_0;
    assert(na =~= a.env_key().subrange(4, a.env_key().len() as int));
    assert(nb =~= b.env_key().subrange(4, b.env_key().len() as int));
}

/// Distinct variables that are not custom have distinct environment keys,
/// and the key of a variable is a function of the variable alone.
pub proof fn lemma_env_key_injective(a: VariableKey, b: VariableKey)
    requires
        !(a is Custom),
        !(b is Custom),
    ensures
        a.env_key() == b.env_key() <==> a == b,
{
    if a != b && a.env_key() == b.env_key() {
        let ka = a.env_key();
        let kb = b.env_key();
        assert(ka.len() == kb.len());
        assert(ka[4] == kb[4]);
        assert(ka[5] == kb[5]);
    }
}

} // verus!
