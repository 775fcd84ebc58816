//! One symbol-table scope: an association list from macro names to their
//! definer token and definition, with unique names.

use vstd::prelude::*;
use crate::definition::{Definition, DefinitionModel};
use crate::strings::str_eq;
use crate::token::Token;

verus! {

/// One binding of a scope.
pub struct ScopeEntry {
    pub name: String,
    pub definer: Token,
    pub definition: Definition,
}

/// The mathematical model of a binding.
pub ghost struct EntryModel {
    pub name: Seq<char>,
    pub definer: Token,
    pub definition: DefinitionModel,
}

impl View for ScopeEntry {
    type V = EntryModel;

    open spec fn view(&self) -> EntryModel {
        EntryModel { name: self.name@, definer: self.definer, definition: self.definition@ }
    }
}

impl Clone for ScopeEntry {
    fn clone(&self) -> (r: Self)
        ensures
            r@ == self@,
    {
        ScopeEntry {
            name: self.name.clone(),
            definer: self.definer.clone(),
            definition: self.definition.clone(),
        }
    }
}

/// The index of the first binding of `k` in `s`, or `-1`.
pub open spec fn find_idx(s: Seq<EntryModel>, k: Seq<char>) -> int
    decreases s.len(),
{
    if s.len() == 0 {
        -1
    } else if s[0].name == k {
        0
    } else {
        let r = find_idx(s.skip(1), k);
        if r == -1 {
            -1
        } else {
            r + 1
        }
    }
}

/// Whether `s` binds `k`.
pub open spec fn has_key(s: Seq<EntryModel>, k: Seq<char>) -> bool {
    find_idx(s, k) >= 0
}

/// The binding of `k` in `s`, where there is one.
pub open spec fn lookup(s: Seq<EntryModel>, k: Seq<char>) -> Option<EntryModel> {
    if find_idx(s, k) >= 0 {
        Some(s[find_idx(s, k)])
    } else {
        None
    }
}

/// No name is bound twice.
pub open spec fn unique_names(s: Seq<EntryModel>) -> bool {
    forall|i: int, j: int| 0 <= i < j < s.len() ==> s[i].name != s[j].name
}

pub broadcast proof fn lemma_find_idx_props(s: Seq<EntryModel>, k: Seq<char>)
    ensures
        -1 <= #[trigger] find_idx(s, k) < s.len(),
        find_idx(s, k) >= 0 ==> s[find_idx(s, k)].name == k,
        find_idx(s, k) == -1 ==> forall|i: int| 0 <= i < s.len() ==> s[i].name != k,
    decreases s.len(),
{
    if s.len() > 0 && s[0].name != k {
        lemma_find_idx_props(s.skip(1), k);
        if find_idx(s.skip(1), k) == -1 {
            assert forall|i: int| 0 <= i < s.len() implies s[i].name != k by {
                if i > 0 {
                    assert(s.skip(1)[i - 1] == s[i]);
                }
            }
        }
    }
}

/// The first match at `i`, with no match before it, is what `find_idx` finds.
pub proof fn lemma_find_idx_first(s: Seq<EntryModel>, k: Seq<char>, i: int)
    requires
        0 <= i < s.len(),
        s[i].name == k,
        forall|j: int| 0 <= j < i ==> s[j].name != k,
    ensures
        find_idx(s, k) == i,
    decreases i,
{
    if i > 0 {
        assert forall|j: int| 0 <= j < i - 1 implies s.skip(1)[j].name != k by {
            assert(s.skip(1)[j] == s[j + 1]);
        }
        assert(s.skip(1)[i - 1] == s[i]);
        lemma_find_idx_first(s.skip(1), k, i - 1);
    }
}

/// Under unique names, any match is the match.
pub proof fn lemma_unique_find(s: Seq<EntryModel>, k: Seq<char>, i: int)
    requires
        unique_names(s),
        0 <= i < s.len(),
        s[i].name == k,
    ensures
        find_idx(s, k) == i,
{
    lemma_find_idx_first(s, k, i);
}

/// Without any match, `find_idx` finds none.
pub proof fn lemma_find_idx_none(s: Seq<EntryModel>, k: Seq<char>)
    requires
        forall|i: int| 0 <= i < s.len() ==> s[i].name != k,
    ensures
        find_idx(s, k) == -1,
{
    lemma_find_idx_props(s, k);
    if find_idx(s, k) >= 0 {
        assert(s[find_idx(s, k)].name == k);
    }
}

/// One symbol-table scope.
pub struct Scope {
    pub entries: Vec<ScopeEntry>,
}

impl View for Scope {
    type V = Seq<EntryModel>;

    open spec fn view(&self) -> Seq<EntryModel> {
        self.entries@.map_values(|e: ScopeEntry| e@)
    }
}

impl Clone for Scope {
    fn clone(&self) -> (r: Self)
        ensures
            r@ == self@,
    {
        let mut entries: Vec<ScopeEntry> = Vec::new();
        let mut i: usize = 0;
        while i < self.entries.len()
            invariant
                i <= self.entries.len(),
                entries@.len() == i,
                forall|j: int| 0 <= j < i ==> entries@[j]@ == self.entries@[j]@,
            decreases self.entries.len() - i,
        {
            entries.push(self.entries[i].clone());
            i = i + 1;
        }
        let r = Scope { entries };
        proof {
            assert forall|j: int| 0 <= j < r@.len() implies r@[j] == self@[j] by {
                assert(r@[j] == r.entries@[j]@);
                assert(self@[j] == self.entries@[j]@);
            }
            assert(r@ =~= self@);
        }
        r
    }
}

impl Scope {
    /// Unique names.
    pub open spec fn wf(&self) -> bool {
        unique_names(self@)
    }

    pub fn new() -> (r: Scope)
        ensures
            r@ =~= Seq::<EntryModel>::empty(),
            r.wf(),
    {
        Scope { entries: Vec::new() }
    }

    pub fn len(&self) -> (r: usize)
        ensures
            r == self@.len(),
    {
        self.entries.len()
    }

    pub fn entry_at(&self, i: usize) -> (r: &ScopeEntry)
        requires
            i < self@.len(),
        ensures
            r@ == self@[i as int],
    {
        &self.entries[i]
    }

    /// The position of `name`'s binding.
    fn index_of(&self, name: &str) -> (r: Option<usize>)
        ensures
            match r {
                Some(i) => find_idx(self@, name@) == i && i < self@.len(),
                None => find_idx(self@, name@) == -1,
            },
    {
        let mut i: usize = 0;
        while i < self.entries.len()
            invariant
                i <= self@.len(),
                self@.len() == self.entries@.len(),
                forall|j: int| 0 <= j < i ==> self@[j].name != name@,
            decreases self.entries.len() - i,
        {
            if str_eq(self.entries[i].name.as_str(), name) {
                proof {
                    lemma_find_idx_first(self@, name@, i as int);
                }
                return Some(i);
            }
            i = i + 1;
        }
        proof {
            lemma_find_idx_none(self@, name@);
        }
        None
    }

    pub fn contains_key(&self, name: &str) -> (r: bool)
        ensures
            r == has_key(self@, name@),
    {
        match self.index_of(name) {
            Some(_) => true,
            None => false,
        }
    }

    /// The definer token and definition bound to `name`.
    pub fn get(&self, name: &str) -> (r: Option<(Token, Definition)>)
        ensures
            match r {
                Some(p) => {
                    &&& lookup(self@, name@) matches Some(e)
                    &&& e.definer == p.0
                    &&& e.definition == p.1@
                },
                None => lookup(self@, name@) is None,
            },
    {
        match self.index_of(name) {
            Some(i) => {
                let e = &self.entries[i];
                Some((e.definer.clone(), e.definition.clone()))
            },
            None => None,
        }
    }

    /// Binds `name`, returning any previous binding.
    pub fn insert(&mut self, name: &str, definer: Token, definition: Definition) -> (prev: Option<
        (Token, Definition),
    >)
        requires
            old(self).wf(),
        ensures
            final(self).wf(),
            lookup(final(self)@, name@) == Some(
                EntryModel { name: name@, definer, definition: definition@ },
            ),
            forall|k: Seq<char>| k != name@ ==> lookup(final(self)@, k) == lookup(old(self)@, k),
            match prev {
                Some(p) => {
                    &&& lookup(old(self)@, name@) matches Some(e)
                    &&& e.definer == p.0
                    &&& e.definition == p.1@
                },
                None => lookup(old(self)@, name@) is None,
            },
    {
        let entry = ScopeEntry { name: name.to_owned(), definer, definition };
        let ghost em = entry@;
        match self.index_of(name) {
            Some(i) => {
                let old_entry = self.entries.remove(i);
                self.entries.insert(i, entry);
                proof {
                    lemma_find_idx_props(old(self)@, name@);
                    assert(final(self)@ =~= old(self)@.update(i as int, em));
                    lemma_scope_update(old(self)@, i as int, em);
                }
                Some((old_entry.definer, old_entry.definition))
            },
            None => {
                self.entries.push(entry);
                proof {
                    assert(final(self)@ =~= old(self)@.push(em));
                    lemma_scope_push(old(self)@, em);
                    lemma_find_idx_props(old(self)@, name@);
                }
                None
            },
        }
    }

    /// Unbinds `name`, returning any previous binding.
    pub fn remove(&mut self, name: &str) -> (prev: Option<(Token, Definition)>)
        requires
            old(self).wf(),
        ensures
            final(self).wf(),
            lookup(final(self)@, name@) is None,
            forall|k: Seq<char>| k != name@ ==> lookup(final(self)@, k) == lookup(old(self)@, k),
            match prev {
                Some(p) => {
                    &&& lookup(old(self)@, name@) matches Some(e)
                    &&& e.definer == p.0
                    &&& e.definition == p.1@
                },
                None => lookup(old(self)@, name@) is None,
            },
    {
        match self.index_of(name) {
            Some(i) => {
                let old_entry = self.entries.remove(i);
                proof {
                    lemma_find_idx_props(old(self)@, name@);
                    assert(final(self)@ =~= old(self)@.remove(i as int));
                    lemma_scope_remove(old(self)@, i as int);
                }
                Some((old_entry.definer, old_entry.definition))
            },
            None => {
                proof {
                    lemma_find_idx_props(old(self)@, name@);
                    lemma_find_idx_none(old(self)@, name@);
                }
                None
            },
        }
    }
}

/// Replacing the binding at `i` rebinds only its name.
proof fn lemma_scope_update(s: Seq<EntryModel>, i: int, e: EntryModel)
    requires
        unique_names(s),
        0 <= i < s.len(),
        s[i].name == e.name,
    ensures
        unique_names(s.update(i, e)),
        lookup(s.update(i, e), e.name) == Some(e),
        forall|k: Seq<char>| k != e.name ==> lookup(s.update(i, e), k) == lookup(s, k),
{
    let t = s.update(i, e);
    assert forall|a: int, b: int| 0 <= a < b < t.len() implies t[a].name != t[b].name by {
        assert(s[a].name != s[b].name);
    }
    lemma_unique_find(t, e.name, i);
    assert forall|k: Seq<char>| k != e.name implies lookup(t, k) == lookup(s, k) by {
        lemma_find_idx_props(s, k);
        lemma_find_idx_props(t, k);
        if find_idx(s, k) >= 0 {
            let j = find_idx(s, k);
            assert(t[j] == s[j]);
            lemma_unique_find(t, k, j);
        } else {
            assert forall|a: int| 0 <= a < t.len() implies t[a].name != k by {
                if a != i {
                    assert(t[a] == s[a]);
                }
            }
            lemma_find_idx_none(t, k);
        }
    }
}

/// Appending a fresh name binds it and keeps the rest.
proof fn lemma_scope_push(s: Seq<EntryModel>, e: EntryModel)
    requires
        unique_names(s),
        !has_key(s, e.name),
    ensures
        unique_names(s.push(e)),
        lookup(s.push(e), e.name) == Some(e),
        forall|k: Seq<char>| k != e.name ==> lookup(s.push(e), k) == lookup(s, k),
{
    let t = s.push(e);
    lemma_find_idx_props(s, e.name);
    assert forall|a: int, b: int| 0 <= a < b < t.len() implies t[a].name != t[b].name by {
        if b < s.len() {
            assert(s[a].name != s[b].name);
        } else {
            assert(t[b] == e);
            assert(s[a].name != e.name);
        }
    }
    lemma_unique_find(t, e.name, s.len() as int);
    assert forall|k: Seq<char>| k != e.name implies lookup(t, k) == lookup(s, k) by {
        lemma_find_idx_props(s, k);
        lemma_find_idx_props(t, k);
        if find_idx(s, k) >= 0 {
            let j = find_idx(s, k);
            assert(t[j] == s[j]);
            lemma_unique_find(t, k, j);
        } else {
            assert forall|a: int| 0 <= a < t.len() implies t[a].name != k by {
                if a < s.len() {
                    assert(t[a] == s[a]);
                }
            }
            lemma_find_idx_none(t, k);
        }
    }
}

/// Removing the binding at `i` unbinds only its name.
proof fn lemma_scope_remove(s: Seq<EntryModel>, i: int)
    requires
        unique_names(s),
        0 <= i < s.len(),
    ensures
        unique_names(s.remove(i)),
        lookup(s.remove(i), s[i].name) is None,
        forall|k: Seq<char>| k != s[i].name ==> lookup(s.remove(i), k) == lookup(s, k),
{
    let t = s.remove(i);
    assert forall|a: int, b: int| 0 <= a < b < t.len() implies t[a].name != t[b].name by {
        let sa = if a < i { a } else { a + 1 };
        let sb = if b < i { b } else { b + 1 };
        assert(t[a] == s[sa]);
        assert(t[b] == s[sb]);
        assert(s[sa].name != s[sb].name);
    }
    assert forall|a: int| 0 <= a < t.len() implies t[a].name != s[i].name by {
        let sa = if a < i { a } else { a + 1 };
        assert(t[a] == s[sa]);
    }
    lemma_find_idx_none(t, s[i].name);
    assert forall|k: Seq<char>| k != s[i].name implies lookup(t, k) == lookup(s, k) by {
        lemma_find_idx_props(s, k);
        lemma_find_idx_props(t, k);
        if find_idx(s, k) >= 0 {
            let j = find_idx(s, k);
            let tj = if j < i { j } else { j - 1 };
            assert(j != i);
            if j > i {
                assert(t[tj] == s[j]);
            } else {
                assert(t[tj] == s[j]);
            }
            lemma_unique_find(t, k, tj);
        } else {
            assert forall|a: int| 0 <= a < t.len() implies t[a].name != k by {
                let sa = if a < i { a } else { a + 1 };
                assert(t[a] == s[sa]);
            }
            lemma_find_idx_none(t, k);
        }
    }
}

} // verus!
