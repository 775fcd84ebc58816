//! The scoped macro symbol table: a global scope, a stack of call-local
//! scopes (one per in-flight function-like macro call), and the counter
//! behind the generated builtins.

use vstd::prelude::*;
use crate::definition::{Definition, DefinitionModel, FunctionModel};
use crate::position::{Position, WorkspacePath};
use crate::scope::{has_key, lookup, unique_names, EntryModel, Scope};
use crate::strings::str_eq;
use crate::symbol::{spec_render, Symbol};
use crate::token::Token;

verus! {

/// The mathematical model of the whole table.
pub ghost struct DefinesModel {
    pub global: Seq<EntryModel>,
    pub stack: Seq<(Seq<char>, Seq<EntryModel>)>,
    pub counter: u64,
}

/// The symbol table of all current defines.
pub struct Defines {
    pub global: Scope,
    pub stack: Vec<(String, Scope)>,
    pub counter: u64,
}

impl View for Defines {
    type V = DefinesModel;

    open spec fn view(&self) -> DefinesModel {
        DefinesModel {
            global: self.global@,
            stack: self.stack@.map_values(|p: (String, Scope)| (p.0@, p.1@)),
            counter: self.counter,
        }
    }
}

/// The generated builtins, resolved from the invocation site.
pub open spec fn is_gen_name(s: Seq<char>) -> bool {
    ||| s == "__COUNTER__"@
    ||| s == "__COUNTER_RESET__"@
    ||| s == "__FILE__"@
    ||| s == "__LINE__"@
}

/// The constant builtins.
pub open spec fn is_const_name(s: Seq<char>) -> bool {
    s == "__ARMA__"@ || s == "__ARMA3__"@
}

/// The names the system intentionally refuses to define.
pub open spec fn is_protest_name(s: Seq<char>) -> bool {
    ||| s == "__DATE_ARR__"@
    ||| s == "__DATE_STR__"@
    ||| s == "__DATE_STR_ISO8601__"@
    ||| s == "__TIME__"@
    ||| s == "__TIME_UTC__"@
    ||| s == "__TIMESTAMP_UTC__"@
    ||| s == "__RAND_INT*__"@
    ||| s == "__RAND_UINT*__"@
    ||| s == "__GAME_VER__"@
    ||| s == "__GAME_VER_MAJ__"@
    ||| s == "__GAME_VER_MIN__"@
    ||| s == "__GAME_BUILD__"@
    ||| s == "__A3_DIAG__"@
    ||| s == "__A3_DEBUG__"@
    ||| s == "__EXEC"@
    ||| s == "__EVAL"@
}

pub open spec fn spec_is_builtin(s: Seq<char>) -> bool {
    is_gen_name(s) || is_protest_name(s) || is_const_name(s)
}

/// What `__FILE__` expands to for a file: the project's declared prefix where
/// the file belongs to a known project, else the bare path.
pub open spec fn spec_file_text(p: WorkspacePath) -> Seq<char> {
    match p.prefix {
        Some(pre) => pre@ + "\\"@ + p.path@,
        None => p.path@,
    }
}

/// The recursion guard: the looking-up token lies within the function's own
/// defining body span, in the same file.
pub open spec fn within_definition(key: Token, f: FunctionModel) -> bool {
    &&& key.position.spec_path() == f.position.spec_path()
    &&& f.position.start.line <= key.position.start.line
    &&& key.position.start.line <= f.position.end.line
}

/// Call-local scope over global, without builtin handling.
pub open spec fn model_get(m: DefinesModel, k: Seq<char>) -> Option<EntryModel> {
    if m.stack.len() > 0 {
        match lookup(m.stack.last().1, k) {
            Some(e) => Some(e),
            None => lookup(m.global, k),
        }
    } else {
        lookup(m.global, k)
    }
}

/// The innermost map a write lands in.
pub open spec fn model_innermost(m: DefinesModel, k: Seq<char>) -> Option<EntryModel> {
    if m.stack.len() > 0 {
        lookup(m.stack.last().1, k)
    } else {
        lookup(m.global, k)
    }
}

/// Full non-builtin resolution: `model_get`, with self-referential
/// function-like lookups failing. The guard is deliberately limited to
/// function-like definitions, whose defining span the table keeps; a
/// value-style self-reference is not caught here and is stopped by the
/// expansion engine's depth ceiling instead, the name passing through
/// literally at the floor.
pub open spec fn model_resolve(m: DefinesModel, key: Token) -> Option<EntryModel> {
    match model_get(m, spec_render(key.symbol)) {
        Some(e) => match e.definition {
            DefinitionModel::Function(f) => if within_definition(key, f) {
                None
            } else {
                Some(e)
            },
            _ => Some(e),
        },
        None => None,
    }
}

/// Presence as the expansion engine sees it: generated builtins are always
/// present; the currently expanding macro's own name is reported absent.
pub open spec fn model_contains(m: DefinesModel, k: Seq<char>) -> bool {
    if is_gen_name(k) {
        true
    } else if m.stack.len() > 0 && m.stack.last().0 == k {
        false
    } else if m.stack.len() > 0 && has_key(m.stack.last().1, k) {
        true
    } else {
        has_key(m.global, k)
    }
}

/// What `__FILE__` resolves to: a quoted word holding the site's file text.
pub open spec fn is_file_value(d: DefinitionModel, key: Token, site: Position) -> bool {
    &&& d matches DefinitionModel::Value(ts)
    &&& ts.len() == 3
    &&& ts[0] == (Token { symbol: Symbol::DoubleQuote, position: key.position })
    &&& ts[2] == (Token { symbol: Symbol::DoubleQuote, position: key.position })
    &&& ts[1].position == key.position
    &&& (ts[1].symbol matches Symbol::Word(w) && w@ == spec_file_text(site.path))
}

impl Defines {
    /// Every scope holds each name at most once.
    pub open spec fn wf(&self) -> bool {
        &&& unique_names(self@.global)
        &&& forall|i: int| 0 <= i < self@.stack.len() ==> unique_names(#[trigger] self@.stack[i].1)
    }

    pub fn new() -> (r: Defines)
        ensures
            r@.counter == 0,
            r@.global =~= Seq::<EntryModel>::empty(),
            r@.stack =~= Seq::<(Seq<char>, Seq<EntryModel>)>::empty(),
            r.wf(),
    {
        let r = Defines { global: Scope::new(), stack: Vec::new(), counter: 0 };
        proof {
            assert(r@.stack =~= Seq::<(Seq<char>, Seq<EntryModel>)>::empty());
        }
        r
    }

    /// Whether the name is reserved by the system: generated, constant, or
    /// intentionally refused.
    pub fn is_builtin(key: &str) -> (r: bool)
        ensures
            r == spec_is_builtin(key@),
    {
        Self::is_gen(key) || Self::is_protest(key) || str_eq(key, "__ARMA__") || str_eq(
            key,
            "__ARMA3__",
        )
    }

    fn is_gen(key: &str) -> (r: bool)
        ensures
            r == is_gen_name(key@),
    {
        str_eq(key, "__COUNTER__") || str_eq(key, "__COUNTER_RESET__") || str_eq(key, "__FILE__")
            || str_eq(key, "__LINE__")
    }

    fn is_protest(key: &str) -> (r: bool)
        ensures
            r == is_protest_name(key@),
    {
        str_eq(key, "__DATE_ARR__") || str_eq(key, "__DATE_STR__") || str_eq(
            key,
            "__DATE_STR_ISO8601__",
        ) || str_eq(key, "__TIME__") || str_eq(key, "__TIME_UTC__") || str_eq(
            key,
            "__TIMESTAMP_UTC__",
        ) || str_eq(key, "__RAND_INT*__") || str_eq(key, "__RAND_UINT*__") || str_eq(
            key,
            "__GAME_VER__",
        ) || str_eq(key, "__GAME_VER_MAJ__") || str_eq(key, "__GAME_VER_MIN__") || str_eq(
            key,
            "__GAME_BUILD__",
        ) || str_eq(key, "__A3_DIAG__") || str_eq(key, "__A3_DEBUG__") || str_eq(key, "__EXEC")
            || str_eq(key, "__EVAL")
    }

    /// Presence check used by the expansion engine: generated names are
    /// always present; the currently expanding macro's own name is absent.
    pub fn contains_key(&self, key: &str) -> (r: bool)
        ensures
            r == model_contains(self@, key@),
    {
        if Self::is_gen(key) {
            return true;
        }
        let n = self.stack.len();
        if n > 0 {
            let last = &self.stack[n - 1];
            proof {
                assert(self@.stack.last() == (last.0@, last.1@));
            }
            if str_eq(last.0.as_str(), key) {
                return false;
            }
            if last.1.contains_key(key) {
                return true;
            }
        }
        self.global.contains_key(key)
    }

    /// Call-local over global lookup, without builtin handling and without
    /// side effects.
    pub fn get_readonly(&self, key: &str) -> (r: Option<(Token, Definition)>)
        ensures
            match model_get(self@, key@) {
                Some(e) => {
                    &&& r matches Some(p)
                    &&& p.0 == e.definer
                    &&& p.1@ == e.definition
                },
                None => r is None,
            },
    {
        let n = self.stack.len();
        if n > 0 {
            let last = &self.stack[n - 1];
            proof {
                assert(self@.stack.last() == (last.0@, last.1@));
            }
            match last.1.get(key) {
                Some(v) => {
                    return Some(v);
                },
                None => {},
            }
        }
        self.global.get(key)
    }

    /// Inspection helper with the same precedence as `get_readonly`.
    pub fn get_test(&self, key: &str) -> (r: Option<(Token, Definition)>)
        ensures
            match model_get(self@, key@) {
                Some(e) => {
                    &&& r matches Some(p)
                    &&& p.0 == e.definer
                    &&& p.1@ == e.definition
                },
                None => r is None,
            },
    {
        self.get_readonly(key)
    }

    /// Full resolution used during expansion. With an invocation site, the
    /// generated builtins are computed from that site; otherwise this is
    /// `get_readonly` under the recursion guard.
    pub fn get_with_gen(&mut self, key: &Token, site: Option<&Position>) -> (r: Option<
        (Token, Definition),
    >)
        ensures
            final(self)@.global == old(self)@.global,
            final(self)@.stack == old(self)@.stack,
            (site is None || !is_gen_name(spec_render(key.symbol))) ==> {
                &&& final(self)@.counter == old(self)@.counter
                &&& match model_resolve(old(self)@, *key) {
                    Some(e) => {
                        &&& r matches Some(p)
                        &&& p.0 == e.definer
                        &&& p.1@ == e.definition
                    },
                    None => r is None,
                }
            },
            site matches Some(st) ==> is_gen_name(spec_render(key.symbol)) ==> {
                let k = spec_render(key.symbol);
                if k == "__COUNTER__"@ {
                    &&& final(self)@.counter == if old(self)@.counter < u64::MAX {
                        (old(self)@.counter + 1) as u64
                    } else {
                        old(self)@.counter
                    }
                    &&& r matches Some(p)
                    &&& p.0 == *key
                    &&& p.1@ == DefinitionModel::Value(
                        seq![
                            Token {
                                symbol: Symbol::Digit(old(self)@.counter),
                                position: key.position,
                            },
                        ],
                    )
                } else if k == "__COUNTER_RESET__"@ {
                    &&& final(self)@.counter == 0
                    &&& r matches Some(p)
                    &&& p.0 == *key
                    &&& p.1@ == DefinitionModel::Void
                } else if k == "__FILE__"@ {
                    &&& final(self)@.counter == old(self)@.counter
                    &&& r matches Some(p)
                    &&& p.0 == *key
                    &&& is_file_value(p.1@, *key, *st)
                } else {
                    &&& final(self)@.counter == old(self)@.counter
                    &&& r matches Some(p)
                    &&& p.0 == *key
                    &&& p.1@ == DefinitionModel::Value(
                        seq![
                            Token {
                                symbol: Symbol::Digit(st.start.line as u64),
                                position: key.position,
                            },
                        ],
                    )
                }
            },
    {
        let ident = key.text();
        match site {
            Some(st) => {
                if str_eq(ident.as_str(), "__COUNTER__") {
                    let counter = self.counter;
                    if self.counter < u64::MAX {
                        self.counter = self.counter + 1;
                    }
                    let mut ts: Vec<Token> = Vec::new();
                    ts.push(Token::new(Symbol::Digit(counter), key.position().clone()));
                    proof {
                        assert(ts@ =~= seq![
                            Token { symbol: Symbol::Digit(counter), position: key.position },
                        ]);
                    }
                    return Some((key.clone(), Definition::Value(ts)));
                }
                if str_eq(ident.as_str(), "__COUNTER_RESET__") {
                    self.counter = 0;
                    return Some((key.clone(), Definition::Void));
                }
                if str_eq(ident.as_str(), "__FILE__") {
                    let file_text: String = match st.path().project_prefix() {
                        Some(pre) => {
                            let mut s = pre.clone();
                            s.append("\\");
                            s.append(st.path().as_str());
                            s
                        },
                        None => st.path().as_str().to_owned(),
                    };
                    let mut ts: Vec<Token> = Vec::new();
                    ts.push(Token::new(Symbol::DoubleQuote, key.position().clone()));
                    ts.push(Token::new(Symbol::Word(file_text), key.position().clone()));
                    ts.push(Token::new(Symbol::DoubleQuote, key.position().clone()));
                    let d = Definition::Value(ts);
                    proof {
                        assert(is_file_value(d@, *key, *st));
                    }
                    return Some((key.clone(), d));
                }
                if str_eq(ident.as_str(), "__LINE__") {
                    let line = st.start().line;
                    let mut ts: Vec<Token> = Vec::new();
                    ts.push(Token::new(Symbol::Digit(line as u64), key.position().clone()));
                    proof {
                        assert(ts@ =~= seq![
                            Token {
                                symbol: Symbol::Digit(st.start.line as u64),
                                position: key.position,
                            },
                        ]);
                    }
                    return Some((key.clone(), Definition::Value(ts)));
                }
            },
            None => {},
        }
        let ret = self.get_readonly(ident.as_str());
        match ret {
            Some((t, d)) => {
                match &d {
                    Definition::Function(f) => {
                        let guard = key.position().path().same_file(f.position().path())
                            && f.position().start().line <= key.position().start().line
                            && key.position().start().line <= f.position().end().line;
                        if guard {
                            None
                        } else {
                            Some((t, d))
                        }
                    },
                    _ => Some((t, d)),
                }
            },
            None => None,
        }
    }

    /// Writes into the innermost active scope, else the global one; returns
    /// any previous binding there.
    pub fn insert(&mut self, key: &str, value: (Token, Definition)) -> (prev: Option<
        (Token, Definition),
    >)
        requires
            old(self).wf(),
        ensures
            final(self).wf(),
            final(self)@.counter == old(self)@.counter,
            final(self)@.stack.len() == old(self)@.stack.len(),
            old(self)@.stack.len() > 0 ==> {
                &&& final(self)@.global == old(self)@.global
                &&& forall|i: int|
                    0 <= i < old(self)@.stack.len() - 1 ==> final(self)@.stack[i] == old(
                        self,
                    )@.stack[i]
                &&& final(self)@.stack.last().0 == old(self)@.stack.last().0
                &&& lookup(final(self)@.stack.last().1, key@) == Some(
                    EntryModel { name: key@, definer: value.0, definition: value.1@ },
                )
                &&& forall|k: Seq<char>|
                    k != key@ ==> lookup(final(self)@.stack.last().1, k) == lookup(
                        old(self)@.stack.last().1,
                        k,
                    )
            },
            old(self)@.stack.len() == 0 ==> {
                &&& final(self)@.stack == old(self)@.stack
                &&& lookup(final(self)@.global, key@) == Some(
                    EntryModel { name: key@, definer: value.0, definition: value.1@ },
                )
                &&& forall|k: Seq<char>|
                    k != key@ ==> lookup(final(self)@.global, k) == lookup(old(self)@.global, k)
            },
            match prev {
                Some(p) => {
                    &&& model_innermost(old(self)@, key@) matches Some(e)
                    &&& e.definer == p.0
                    &&& e.definition == p.1@
                },
                None => model_innermost(old(self)@, key@) is None,
            },
    {
        if self.stack.len() > 0 {
            let mut top = self.stack.pop().unwrap();
            proof {
                assert(old(self)@.stack.last() == (top.0@, top.1@));
            }
            let prev = top.1.insert(key, value.0, value.1);
            self.stack.push(top);
            proof {
                assert(final(self)@.stack =~= old(self)@.stack.update(
                    old(self)@.stack.len() - 1,
                    final(self)@.stack.last(),
                ));
            }
            prev
        } else {
            let prev = self.global.insert(key, value.0, value.1);
            proof {
                assert(final(self)@.stack =~= old(self)@.stack);
            }
            prev
        }
    }

    /// Removes from the innermost active scope, else the global one.
    pub fn remove(&mut self, key: &str) -> (prev: Option<(Token, Definition)>)
        requires
            old(self).wf(),
        ensures
            final(self).wf(),
            final(self)@.counter == old(self)@.counter,
            final(self)@.stack.len() == old(self)@.stack.len(),
            old(self)@.stack.len() > 0 ==> {
                &&& final(self)@.global == old(self)@.global
                &&& forall|i: int|
                    0 <= i < old(self)@.stack.len() - 1 ==> final(self)@.stack[i] == old(
                        self,
                    )@.stack[i]
                &&& final(self)@.stack.last().0 == old(self)@.stack.last().0
                &&& lookup(final(self)@.stack.last().1, key@) is None
                &&& forall|k: Seq<char>|
                    k != key@ ==> lookup(final(self)@.stack.last().1, k) == lookup(
                        old(self)@.stack.last().1,
                        k,
                    )
            },
            old(self)@.stack.len() == 0 ==> {
                &&& final(self)@.stack == old(self)@.stack
                &&& lookup(final(self)@.global, key@) is None
                &&& forall|k: Seq<char>|
                    k != key@ ==> lookup(final(self)@.global, k) == lookup(old(self)@.global, k)
            },
            match prev {
                Some(p) => {
                    &&& model_innermost(old(self)@, key@) matches Some(e)
                    &&& e.definer == p.0
                    &&& e.definition == p.1@
                },
                None => model_innermost(old(self)@, key@) is None,
            },
    {
        if self.stack.len() > 0 {
            let mut top = self.stack.pop().unwrap();
            proof {
                assert(old(self)@.stack.last() == (top.0@, top.1@));
            }
            let prev = top.1.remove(key);
            self.stack.push(top);
            proof {
                assert(final(self)@.stack =~= old(self)@.stack.update(
                    old(self)@.stack.len() - 1,
                    final(self)@.stack.last(),
                ));
            }
            prev
        } else {
            let prev = self.global.remove(key);
            proof {
                assert(final(self)@.stack =~= old(self)@.stack);
            }
            prev
        }
    }

    /// Begins a function-macro call scope.
    pub fn push(&mut self, name: &str, args: Scope)
        requires
            old(self).wf(),
            args.wf(),
        ensures
            final(self).wf(),
            final(self)@.global == old(self)@.global,
            final(self)@.counter == old(self)@.counter,
            final(self)@.stack.len() == old(self)@.stack.len() + 1,
            forall|i: int|
                0 <= i < old(self)@.stack.len() ==> final(self)@.stack[i] == old(self)@.stack[i],
            final(self)@.stack.last() == (name@, args@),
    {
        self.stack.push((name.to_owned(), args));
        proof {
            assert forall|i: int| 0 <= i < final(self)@.stack.len() implies final(self)@.stack[i]
                == if i < old(self)@.stack.len() {
                old(self)@.stack[i]
            } else {
                (name@, args@)
            } by {
                assert(final(self)@.stack[i] == (final(self).stack@[i].0@, final(self).stack@[i].1@));
            }
        }
    }

    /// Ends the innermost function-macro call scope.
    pub fn pop(&mut self)
        requires
            old(self).wf(),
        ensures
            final(self).wf(),
            final(self)@.global == old(self)@.global,
            final(self)@.counter == old(self)@.counter,
            old(self)@.stack.len() > 0 ==> final(self)@.stack =~= old(self)@.stack.take(
                old(self)@.stack.len() - 1,
            ),
            old(self)@.stack.len() == 0 ==> final(self)@.stack =~= old(self)@.stack,
    {
        if self.stack.len() > 0 {
            let _ = self.stack.pop();
            proof {
                assert(final(self)@.stack =~= old(self)@.stack.take(old(self)@.stack.len() - 1));
            }
        }
    }

    pub fn stack(&self) -> (r: &Vec<(String, Scope)>)
        ensures
            r == self.stack,
    {
        &self.stack
    }

    pub fn global(&self) -> (r: &Scope)
        ensures
            r == self.global,
    {
        &self.global
    }
}

/// The values a run of counter expansions emits: each use emits the current
/// counter and advances it, stopping at the ceiling.
pub open spec fn counter_values(start: u64, n: nat) -> Seq<u64>
    decreases n,
{
    if n == 0 {
        Seq::empty()
    } else {
        seq![start] + counter_values(
            if start < u64::MAX {
                (start + 1) as u64
            } else {
                start
            },
            (n - 1) as nat,
        )
    }
}

/// Counter expansions within one file emit strictly increasing values
/// starting at the table's counter — `0` for a fresh table, and again `0`
/// right after a reset — as long as the ceiling is never reached. Each
/// single step is what `get_with_gen` ensures for a counter lookup; this law
/// chains any number of them.
pub proof fn lemma_counter_strictly_increasing(start: u64, n: nat)
    requires
        start + n <= u64::MAX,
    ensures
        counter_values(start, n).len() == n,
        forall|i: int| 0 <= i < n ==> counter_values(start, n)[i] == start + i,
        forall|i: int, j: int|
            0 <= i < j < n ==> counter_values(start, n)[i] < counter_values(start, n)[j],
    decreases n,
{
    if n > 0 {
        lemma_counter_strictly_increasing((start + 1) as u64, (n - 1) as nat);
        let rest = counter_values((start + 1) as u64, (n - 1) as nat);
        assert forall|i: int| 0 <= i < n implies counter_values(start, n)[i] == start + i by {
            if i > 0 {
                assert(counter_values(start, n)[i] == rest[i - 1]);
            }
        }
    }
}

impl Default for Defines {
    fn default() -> (r: Defines)
        ensures
            r@.counter == 0,
            r@.global =~= Seq::<EntryModel>::empty(),
            r@.stack =~= Seq::<(Seq<char>, Seq<EntryModel>)>::empty(),
            r.wf(),
    {
        Defines::new()
    }
}

} // verus!
