//! The expansion engine: consumes a token stream under a Defines table,
//! recursively substitutes macro invocations, resolves generated builtins at
//! their invocation site, and reports malformed calls without giving up on
//! the rest of the stream.

use vstd::prelude::*;
use crate::defines::{is_gen_name, model_contains, model_resolve, Defines, DefinesModel};
use crate::definition::{Definition, DefinitionModel, FunctionModel};
use crate::pe9_function_call_argument_count::FunctionCallArgumentCount;
use crate::processed::Processed;
use crate::scope::Scope;
use crate::symbol::{spec_render, Symbol};
use crate::token::{clone_tokens, Token};

verus! {

/// A problem the engine found; expansion of the offending call site aborts,
/// the surrounding tokens still emit.
pub enum PreprocessorDiagnostic {
    /// A function-like macro was called with the wrong number of arguments.
    ArgumentCount(FunctionCallArgumentCount),
    /// A call's argument list never closes before the stream ends.
    UnclosedCall { token: Token },
}

/// One expanded-stream token: the token itself, whose position is its
/// original source location, and the outermost macro invocation it was
/// expanded through, where there was one.
pub struct Emitted {
    pub token: Token,
    pub via: Option<Token>,
}

/// What one run of the engine produced.
pub struct Expansion {
    pub output: Vec<Emitted>,
    pub diagnostics: Vec<PreprocessorDiagnostic>,
}

/// A token the engine passes through unchanged: anything but a word bound in
/// the table.
pub open spec fn inert(m: DefinesModel, t: Token) -> bool {
    match t.symbol.spec_word() {
        Some(w) => !model_contains(m, w),
        None => true,
    }
}

/// Every token of the stream is inert.
pub open spec fn all_inert(m: DefinesModel, s: Seq<Token>) -> bool {
    forall|j: int| 0 <= j < s.len() ==> inert(m, #[trigger] s[j])
}

/// The stream starts with a word the table binds, other than a generated
/// builtin.
pub open spec fn head_bound(m: DefinesModel, input: Seq<Token>) -> bool {
    &&& input.len() > 0
    &&& input[0].symbol.spec_word() matches Some(w) && model_contains(m, w) && !is_gen_name(w)
}

/// The function-like macro the stream's first token resolves to, if any.
pub open spec fn head_function(m: DefinesModel, input: Seq<Token>) -> Option<FunctionModel> {
    if head_bound(m, input) {
        match model_resolve(m, input[0]) {
            Some(e) => match e.definition {
                DefinitionModel::Function(f) => Some(f),
                _ => None,
            },
            None => None,
        }
    } else {
        None
    }
}

/// The value body the stream's first token resolves to, if any.
pub open spec fn head_value(m: DefinesModel, input: Seq<Token>) -> Option<Seq<Token>> {
    if head_bound(m, input) {
        match model_resolve(m, input[0]) {
            Some(e) => match e.definition {
                DefinitionModel::Value(ts) => Some(ts),
                _ => None,
            },
            None => None,
        }
    } else {
        None
    }
}

/// The first index at or after `j` that is not whitespace.
pub open spec fn spec_skip_ws(input: Seq<Token>, j: int) -> int
    decreases input.len() - j,
{
    if j < 0 || j >= input.len() {
        j
    } else if input[j].symbol is Whitespace {
        spec_skip_ws(input, j + 1)
    } else {
        j
    }
}

/// Whether the first non-whitespace token after the head opens an argument
/// list.
pub open spec fn head_call_paren(input: Seq<Token>) -> bool {
    &&& spec_skip_ws(input, 1) < input.len()
    &&& input[spec_skip_ws(input, 1)].symbol is LeftParenthesis
}

/// The head call's parsed argument groups and the index past its close.
pub open spec fn head_args(input: Seq<Token>) -> Option<(Seq<Seq<Token>>, int)> {
    spec_parse(input, spec_skip_ws(input, 1) + 1, 1, Seq::empty(), Seq::empty())
}

/// The invocation a spliced body is reached through: the outermost one.
pub open spec fn via_or(via: Option<Token>, t: Token) -> Option<Token> {
    if via is Some {
        via
    } else {
        Some(t)
    }
}

/// Whether a word names one of the declared parameters.
pub open spec fn is_param_name(params: Seq<Token>, w: Seq<char>) -> bool {
    exists|k: int| 0 <= k < params.len() && spec_render((#[trigger] params[k]).symbol) == w
}

/// A body token that passes through untouched when the body expands under
/// the call's scope: not a word; or the macro's own name, which the scope
/// reports absent; or a word that is neither generated, nor a parameter,
/// nor globally bound.
pub open spec fn body_token_inert(
    m: DefinesModel,
    name: Seq<char>,
    params: Seq<Token>,
    t: Token,
) -> bool {
    match t.symbol.spec_word() {
        Some(w) => !is_gen_name(w) && (w == name || (!is_param_name(params, w)
            && !crate::scope::has_key(m.global, w))),
        None => true,
    }
}

/// Every body token passes through untouched under the call's scope.
pub open spec fn body_all_inert(
    m: DefinesModel,
    name: Seq<char>,
    params: Seq<Token>,
    body: Seq<Token>,
) -> bool {
    forall|j: int| 0 <= j < body.len() ==> body_token_inert(m, name, params, #[trigger] body[j])
}

/// The stream heads a function-like call of the declared arity whose body
/// and remaining tokens are all inert: the flat success case.
pub open spec fn head_flat_call(m: DefinesModel, input: Seq<Token>, depth: u64) -> bool {
    &&& head_function(m, input) is Some
    &&& head_call_paren(input)
    &&& head_args(input) is Some
    &&& head_args(input).unwrap().0.len() == head_function(m, input).unwrap().params.len()
    &&& depth > 0
    &&& body_all_inert(
        m,
        spec_render(input[0].symbol),
        head_function(m, input).unwrap().params,
        head_function(m, input).unwrap().body,
    )
    &&& all_inert(m, input.skip(head_args(input).unwrap().1))
}

fn clone_opt_token(v: &Option<Token>) -> (r: Option<Token>)
    ensures
        r == *v,
{
    match v {
        Some(t) => Some(t.clone()),
        None => None,
    }
}

/// Appends one pass-through or expanded token to the output.
fn emit(out: &mut Vec<Emitted>, t: &Token, via: &Option<Token>)
    ensures
        final(out)@ == old(out)@.push(Emitted { token: *t, via: *via }),
{
    out.push(Emitted { token: t.clone(), via: clone_opt_token(via) });
}

/// What the argument scan yields from index `i` at nesting `depth`, having
/// collected `args` finished groups and `current` so far: the groups and
/// the index just past the closing parenthesis, or nothing when the list
/// never closes. A parenthesis or bracket deepens the nesting; a comma at
/// depth one finishes a group; the parenthesis that returns to depth zero
/// finishes the list. So the groups partition the consumed tokens at
/// depth-one commas, and the scan succeeds exactly when the list closes at
/// balanced depth.
pub open spec fn spec_parse(
    input: Seq<Token>,
    i: int,
    depth: int,
    args: Seq<Seq<Token>>,
    current: Seq<Token>,
) -> Option<(Seq<Seq<Token>>, int)>
    decreases input.len() - i,
{
    if i < 0 || i >= input.len() {
        None
    } else {
        let t = input[i];
        match t.symbol {
            Symbol::LeftParenthesis => spec_parse(input, i + 1, depth + 1, args, current.push(t)),
            Symbol::LeftBracket => spec_parse(input, i + 1, depth + 1, args, current.push(t)),
            Symbol::RightParenthesis => if depth == 1 {
                Some((args.push(current), i + 1))
            } else {
                spec_parse(input, i + 1, depth - 1, args, current.push(t))
            },
            Symbol::RightBracket => spec_parse(
                input,
                i + 1,
                if depth > 1 {
                    depth - 1
                } else {
                    depth
                },
                args,
                current.push(t),
            ),
            Symbol::Comma => if depth == 1 {
                spec_parse(input, i + 1, depth, args.push(current), Seq::empty())
            } else {
                spec_parse(input, i + 1, depth, args, current.push(t))
            },
            _ => spec_parse(input, i + 1, depth, args, current.push(t)),
        }
    }
}

/// A successful scan ends past its starting point and within the stream.
pub proof fn lemma_spec_parse_bounds(
    input: Seq<Token>,
    i: int,
    depth: int,
    args: Seq<Seq<Token>>,
    current: Seq<Token>,
)
    ensures
        spec_parse(input, i, depth, args, current) matches Some(p) ==> i < p.1 <= input.len(),
    decreases input.len() - i,
{
    if 0 <= i < input.len() {
        let t = input[i];
        match t.symbol {
            Symbol::LeftParenthesis => lemma_spec_parse_bounds(
                input,
                i + 1,
                depth + 1,
                args,
                current.push(t),
            ),
            Symbol::LeftBracket => lemma_spec_parse_bounds(
                input,
                i + 1,
                depth + 1,
                args,
                current.push(t),
            ),
            Symbol::RightParenthesis => if depth != 1 {
                lemma_spec_parse_bounds(input, i + 1, depth - 1, args, current.push(t))
            },
            Symbol::RightBracket => lemma_spec_parse_bounds(
                input,
                i + 1,
                if depth > 1 {
                    depth - 1
                } else {
                    depth
                },
                args,
                current.push(t),
            ),
            Symbol::Comma => if depth == 1 {
                lemma_spec_parse_bounds(input, i + 1, depth, args.push(current), Seq::empty())
            } else {
                lemma_spec_parse_bounds(input, i + 1, depth, args, current.push(t))
            },
            _ => lemma_spec_parse_bounds(input, i + 1, depth, args, current.push(t)),
        }
    }
}

/// Skipping whitespace never moves backwards.
pub proof fn lemma_skip_ws_lb(input: Seq<Token>, j: int)
    requires
        j >= 0,
    ensures
        spec_skip_ws(input, j) >= j,
    decreases input.len() - j,
{
    if 0 <= j < input.len() && input[j].symbol is Whitespace {
        lemma_skip_ws_lb(input, j + 1);
    }
}

/// The groups of an argument list, as the views of the parsed vectors.
pub open spec fn spec_groups(args: Seq<Vec<Token>>) -> Seq<Seq<Token>> {
    args.map_values(|v: Vec<Token>| v@)
}

/// Parses a comma-separated argument list starting at the opening
/// parenthesis, tracking nested parenthesis and bracket depth so commas
/// inside nested calls do not split arguments. Yields exactly what the scan
/// `spec_parse` yields: the argument groups split at depth-one commas, and
/// the index just past the balancing close; nothing exactly when the list
/// never closes.
pub fn parse_call_args(input: &Vec<Token>, open: usize) -> (r: Option<(Vec<Vec<Token>>, usize)>)
    requires
        open < input@.len(),
        input@.len() <= usize::MAX,
        input@[open as int].symbol is LeftParenthesis,
    ensures
        match r {
            Some(p) => {
                &&& spec_parse(input@, open + 1, 1, Seq::empty(), Seq::empty()) == Some(
                    (spec_groups(p.0@), p.1 as int),
                )
                &&& open < p.1 <= input@.len()
                &&& p.0@.len() >= 1
            },
            None => spec_parse(input@, open + 1, 1, Seq::empty(), Seq::empty()) is None,
        },
{
    let mut depth: usize = 1;
    let mut args: Vec<Vec<Token>> = Vec::new();
    let mut current: Vec<Token> = Vec::new();
    let mut i: usize = open + 1;
    proof {
        assert(spec_groups(args@) =~= Seq::<Seq<Token>>::empty());
        assert(current@ =~= Seq::<Token>::empty());
    }
    while i < input.len()
        invariant
            open < i <= input@.len(),
            1 <= depth <= i,
            spec_parse(input@, open + 1, 1, Seq::empty(), Seq::empty()) == spec_parse(
                input@,
                i as int,
                depth as int,
                spec_groups(args@),
                current@,
            ),
        decreases input@.len() - i,
    {
        let ghost old_args = spec_groups(args@);
        let ghost old_current = current@;
        let t = &input[i];
        match t.symbol() {
            crate::symbol::Symbol::LeftParenthesis => {
                depth = depth + 1;
                current.push(t.clone());
            },
            crate::symbol::Symbol::LeftBracket => {
                depth = depth + 1;
                current.push(t.clone());
            },
            crate::symbol::Symbol::RightParenthesis => {
                if depth == 1 {
                    args.push(current);
                    proof {
                        assert(spec_groups(args@) =~= old_args.push(old_current));
                    }
                    return Some((args, i + 1));
                }
                depth = depth - 1;
                current.push(t.clone());
            },
            crate::symbol::Symbol::RightBracket => {
                if depth > 1 {
                    depth = depth - 1;
                }
                current.push(t.clone());
            },
            crate::symbol::Symbol::Comma => {
                if depth == 1 {
                    args.push(current);
                    current = Vec::new();
                    proof {
                        assert(spec_groups(args@) =~= old_args.push(old_current));
                        assert(current@ =~= Seq::<Token>::empty());
                    }
                } else {
                    current.push(t.clone());
                }
            },
            _ => {
                current.push(t.clone());
            },
        }
        i = i + 1;
    }
    None
}

/// Expands one token stream into `out`, collecting diagnostics. The table's
/// scopes come back exactly as they went in: every call scope pushed for a
/// function-like body is popped on every path. A stream with no bound words
/// passes through unchanged.
#[verifier::rlimit(100)]
pub fn expand_tokens(
    defines: &mut Defines,
    input: &Vec<Token>,
    via: &Option<Token>,
    depth: u64,
    out: &mut Vec<Emitted>,
    diags: &mut Vec<PreprocessorDiagnostic>,
)
    requires
        old(defines).wf(),
    ensures
        final(defines).wf(),
        final(defines)@.global == old(defines)@.global,
        final(defines)@.stack == old(defines)@.stack,
        final(out)@.len() >= old(out)@.len(),
        forall|j: int| 0 <= j < old(out)@.len() ==> final(out)@[j] == old(out)@[j],
        final(diags)@.len() >= old(diags)@.len(),
        forall|j: int| 0 <= j < old(diags)@.len() ==> final(diags)@[j] == old(diags)@[j],
        all_inert(old(defines)@, input@) ==> {
            &&& final(out)@ == old(out)@ + input@.map_values(
                |t: Token| Emitted { token: t, via: *via },
            )
            &&& final(diags)@ == old(diags)@
            &&& final(defines)@ == old(defines)@
        },
        (head_function(old(defines)@, input@) is Some && head_call_paren(input@) && head_args(
            input@,
        ) is None) ==> {
            &&& final(diags)@.len() == old(diags)@.len() + 1
            &&& (final(diags)@.last() matches PreprocessorDiagnostic::UnclosedCall { token }
                && token == input@[0])
            &&& final(out)@ == old(out)@ + input@.map_values(
                |t: Token| Emitted { token: t, via: *via },
            )
            &&& final(defines)@ == old(defines)@
        },
        head_function(old(defines)@, input@) matches Some(fm) ==> (head_call_paren(input@)
            ==> (head_args(input@) matches Some(pr) ==> ((pr.0.len() != fm.params.len()
            && all_inert(old(defines)@, input@.skip(pr.1))) ==> {
            &&& final(diags)@.len() == old(diags)@.len() + 1
            &&& (final(diags)@.last() matches PreprocessorDiagnostic::ArgumentCount(d) && d.token
                == input@[0] && d.expected == fm.params.len() && d.got == pr.0.len())
            &&& final(out)@ == old(out)@ + input@.map_values(
                |t: Token| Emitted { token: t, via: *via },
            )
            &&& final(defines)@ == old(defines)@
        }))),
        head_value(old(defines)@, input@) matches Some(body) ==> (depth > 0 && all_inert(
            old(defines)@,
            body,
        ) && all_inert(old(defines)@, input@.skip(1))) ==> {
            &&& final(out)@ == old(out)@ + body.map_values(
                |t: Token| Emitted { token: t, via: via_or(*via, input@[0]) },
            ) + input@.skip(1).map_values(|t: Token| Emitted { token: t, via: *via })
            &&& final(diags)@ == old(diags)@
            &&& final(defines)@ == old(defines)@
        },
        head_flat_call(old(defines)@, input@, depth) ==> {
            &&& final(out)@ == old(out)@ + head_function(
                old(defines)@,
                input@,
            ).unwrap().body.map_values(
                |t: Token| Emitted { token: t, via: via_or(*via, input@[0]) },
            ) + input@.skip(head_args(input@).unwrap().1).map_values(
                |t: Token| Emitted { token: t, via: *via },
            )
            &&& final(diags)@ == old(diags)@
            &&& final(defines)@ == old(defines)@
        },
    decreases depth,
{
    let ghost m0 = old(defines)@;
    let ghost out0 = old(out)@;
    let ghost diags0 = old(diags)@;
    let mut i: usize = 0;
    proof {
        assert(out0 + input@.take(0).map_values(|t: Token| Emitted { token: t, via: *via })
            =~= out0);
    }
    while i < input.len()
        invariant
            i <= input@.len(),
            defines.wf(),
            defines@.global == m0.global,
            defines@.stack == m0.stack,
            out@.len() >= out0.len(),
            forall|j: int| 0 <= j < out0.len() ==> out@[j] == out0[j],
            diags@.len() >= diags0.len(),
            forall|j: int| 0 <= j < diags0.len() ==> diags@[j] == diags0[j],
            all_inert(m0, input@) ==> {
                &&& out@ == out0 + input@.take(i as int).map_values(
                    |t: Token| Emitted { token: t, via: *via },
                )
                &&& diags@ == diags0
                &&& defines@ == m0
            },
            (head_function(m0, input@) is Some && head_call_paren(input@) && head_args(input@)
                is None) ==> (i == 0 && out@ == out0 && diags@ == diags0 && defines@ == m0) || (i
                == input@.len() && diags@.len() == diags0.len() + 1 && (diags@.last()
                matches PreprocessorDiagnostic::UnclosedCall { token } && token == input@[0])
                && out@ == out0 + input@.map_values(|t: Token| Emitted { token: t, via: *via })
                && defines@ == m0),
            head_function(m0, input@) matches Some(fm) ==> (head_call_paren(input@) ==> (head_args(
                input@,
            ) matches Some(pr) ==> ((pr.0.len() != fm.params.len() && all_inert(
                m0,
                input@.skip(pr.1),
            )) ==> ((i == 0 && out@ == out0 && diags@ == diags0 && defines@ == m0) || (pr.1 <= i
                <= input@.len() && diags@.len() == diags0.len() + 1 && (diags@.last()
                matches PreprocessorDiagnostic::ArgumentCount(d) && d.token == input@[0]
                && d.expected == fm.params.len() && d.got == pr.0.len()) && out@ == out0
                + input@.take(i as int).map_values(|t: Token| Emitted { token: t, via: *via })
                && defines@ == m0))))),
            head_value(m0, input@) matches Some(body) ==> (depth > 0 && all_inert(m0, body)
                && all_inert(m0, input@.skip(1))) ==> (i == 0 && out@ == out0 && diags@ == diags0
                && defines@ == m0) || (1 <= i <= input@.len() && out@ == out0 + body.map_values(
                |t: Token| Emitted { token: t, via: via_or(*via, input@[0]) },
            ) + input@.subrange(1, i as int).map_values(|t: Token| Emitted { token: t, via: *via })
                && diags@ == diags0 && defines@ == m0),
            head_flat_call(m0, input@, depth) ==> (i == 0 && out@ == out0 && diags@ == diags0
                && defines@ == m0) || (head_args(input@).unwrap().1 <= i <= input@.len() && out@
                == out0 + head_function(m0, input@).unwrap().body.map_values(
                |t: Token| Emitted { token: t, via: via_or(*via, input@[0]) },
            ) + input@.subrange(head_args(input@).unwrap().1, i as int).map_values(
                |t: Token| Emitted { token: t, via: *via },
            ) && diags@ == diags0 && defines@ == m0),
        decreases input@.len() - i,
    {
        let t = &input[i];
        let is_macro = match t.symbol().word() {
            Some(w) => defines.contains_key(w.as_str()),
            None => false,
        };
        if !is_macro {
            emit(out, t, via);
            proof {
                assert(input@.take(i + 1).map_values(|t: Token| Emitted { token: t, via: *via })
                    =~= input@.take(i as int).map_values(
                    |t: Token| Emitted { token: t, via: *via },
                ).push(Emitted { token: input@[i as int], via: *via }));
                if all_inert(m0, input@) {
                    assert(out@ =~= out0 + input@.take(i + 1).map_values(
                        |t: Token| Emitted { token: t, via: *via },
                    ));
                }
                if head_function(m0, input@) is Some && head_call_paren(input@) && head_args(
                    input@,
                ) is Some {
                    let fm = head_function(m0, input@).unwrap();
                    let pr = head_args(input@).unwrap();
                    if pr.0.len() != fm.params.len() && all_inert(m0, input@.skip(pr.1)) && i != 0 {
                        lemma_skip_ws_lb(input@, 1);
                        lemma_spec_parse_bounds(
                            input@,
                            spec_skip_ws(input@, 1) + 1,
                            1,
                            Seq::empty(),
                            Seq::empty(),
                        );
                        assert(out@ =~= out0 + input@.take(i + 1).map_values(
                            |t: Token| Emitted { token: t, via: *via },
                        ));
                    }
                }
                if head_value(m0, input@) is Some && depth > 0 && all_inert(
                    m0,
                    head_value(m0, input@).unwrap(),
                ) && all_inert(m0, input@.skip(1)) && i != 0 {
                    let body = head_value(m0, input@).unwrap();
                    assert(input@.subrange(1, i + 1).map_values(
                        |t: Token| Emitted { token: t, via: *via },
                    ) =~= input@.subrange(1, i as int).map_values(
                        |t: Token| Emitted { token: t, via: *via },
                    ).push(Emitted { token: input@[i as int], via: *via }));
                    assert(out@ =~= out0 + body.map_values(
                        |t: Token| Emitted { token: t, via: via_or(*via, input@[0]) },
                    ) + input@.subrange(1, i + 1).map_values(
                        |t: Token| Emitted { token: t, via: *via },
                    ));
                }
                if head_flat_call(m0, input@, depth) && i != 0 {
                    let fbody = head_function(m0, input@).unwrap().body;
                    let pr = head_args(input@).unwrap();
                    lemma_skip_ws_lb(input@, 1);
                    lemma_spec_parse_bounds(
                        input@,
                        spec_skip_ws(input@, 1) + 1,
                        1,
                        Seq::empty(),
                        Seq::empty(),
                    );
                    assert(input@.subrange(pr.1, i + 1).map_values(
                        |t: Token| Emitted { token: t, via: *via },
                    ) =~= input@.subrange(pr.1, i as int).map_values(
                        |t: Token| Emitted { token: t, via: *via },
                    ).push(Emitted { token: input@[i as int], via: *via }));
                    assert(out@ =~= out0 + fbody.map_values(
                        |t: Token| Emitted { token: t, via: via_or(*via, input@[0]) },
                    ) + input@.subrange(pr.1, i + 1).map_values(
                        |t: Token| Emitted { token: t, via: *via },
                    ));
                }
            }
            i = i + 1;
        } else {
            proof {
                if all_inert(m0, input@) {
                    assert(inert(m0, input@[i as int]));
                    assert(false);
                }
                if head_function(m0, input@) is Some && head_call_paren(input@) && head_args(
                    input@,
                ) is Some {
                    let fm = head_function(m0, input@).unwrap();
                    let pr = head_args(input@).unwrap();
                    if pr.0.len() != fm.params.len() && all_inert(m0, input@.skip(pr.1)) && i != 0 {
                        lemma_skip_ws_lb(input@, 1);
                        lemma_spec_parse_bounds(
                            input@,
                            spec_skip_ws(input@, 1) + 1,
                            1,
                            Seq::empty(),
                            Seq::empty(),
                        );
                        assert(input@.skip(pr.1)[i - pr.1] == input@[i as int]);
                        assert(inert(m0, input@[i as int]));
                        assert(false);
                    }
                }
                if head_value(m0, input@) is Some && depth > 0 && all_inert(
                    m0,
                    head_value(m0, input@).unwrap(),
                ) && all_inert(m0, input@.skip(1)) && i != 0 {
                    assert(input@.skip(1)[i - 1] == input@[i as int]);
                    assert(inert(m0, input@[i as int]));
                    assert(false);
                }
                if head_flat_call(m0, input@, depth) && i != 0 {
                    let pr = head_args(input@).unwrap();
                    lemma_skip_ws_lb(input@, 1);
                    lemma_spec_parse_bounds(
                        input@,
                        spec_skip_ws(input@, 1) + 1,
                        1,
                        Seq::empty(),
                        Seq::empty(),
                    );
                    assert(input@.skip(pr.1)[i - pr.1] == input@[i as int]);
                    assert(inert(m0, input@[i as int]));
                    assert(false);
                }
            }
            let site = t.position();
            let got = defines.get_with_gen(t, Some(site));
            match got {
                None => {
                    // Self-referential resolution degrades to the name
                    // passing through literally.
                    emit(out, t, via);
                    i = i + 1;
                },
                Some((_, Definition::Void)) => {
                    i = i + 1;
                },
                Some((_, Definition::Value(body))) => {
                    if depth == 0 {
                        // The defensive recursion ceiling: pass through.
                        emit(out, t, via);
                    } else {
                        let new_via = match via {
                            Some(v) => Some(v.clone()),
                            None => Some(t.clone()),
                        };
                        expand_tokens(defines, &body, &new_via, depth - 1, out, diags);
                        proof {
                            if head_value(m0, input@) is Some && all_inert(
                                m0,
                                head_value(m0, input@).unwrap(),
                            ) && all_inert(m0, input@.skip(1)) && i == 0 {
                                assert(input@.subrange(1, 1).map_values(
                                    |t: Token| Emitted { token: t, via: *via },
                                ) =~= Seq::<Emitted>::empty());
                                assert(out@ =~= out0 + head_value(m0, input@).unwrap().map_values(
                                    |t: Token| Emitted { token: t, via: via_or(*via, input@[0]) },
                                ) + input@.subrange(1, 1).map_values(
                                    |t: Token| Emitted { token: t, via: *via },
                                ));
                            }
                        }
                    }
                    i = i + 1;
                },
                Some((_, Definition::Function(f))) => {
                    let mut j = i + 1;
                    while j < input.len() && is_whitespace(&input[j])
                        invariant
                            i < j <= input@.len(),
                            spec_skip_ws(input@, i + 1) == spec_skip_ws(input@, j as int),
                        decreases input@.len() - j,
                    {
                        j = j + 1;
                    }
                    proof {
                        assert(spec_skip_ws(input@, i + 1) == j);
                    }
                    let is_call = j < input.len() && is_left_paren(&input[j]);
                    if !is_call {
                        // Unknown function-like invocation syntax: the bare
                        // name passes through.
                        emit(out, t, via);
                        i = i + 1;
                    } else {
                        match parse_call_args(input, j) {
                            None => {
                                diags.push(
                                    PreprocessorDiagnostic::UnclosedCall { token: t.clone() },
                                );
                                let mut k = i;
                                let ghost out_mid = out@;
                                proof {
                                    assert(out@ =~= out_mid + input@.subrange(
                                        i as int,
                                        i as int,
                                    ).map_values(|t: Token| Emitted { token: t, via: *via }));
                                }
                                while k < input.len()
                                    invariant
                                        i <= k <= input@.len(),
                                        out@ == out_mid + input@.subrange(
                                            i as int,
                                            k as int,
                                        ).map_values(|t: Token| Emitted { token: t, via: *via }),
                                    decreases input@.len() - k,
                                {
                                    emit(out, &input[k], via);
                                    proof {
                                        assert(out@ =~= out_mid + input@.subrange(
                                            i as int,
                                            k + 1,
                                        ).map_values(|t: Token| Emitted { token: t, via: *via }));
                                    }
                                    k = k + 1;
                                }
                                proof {
                                    if i == 0 {
                                        assert(input@.subrange(0, input@.len() as int)
                                            =~= input@);
                                    }
                                }
                                i = input.len();
                            },
                            Some((args, next)) => {
                                if args.len() != f.params.len() {
                                    diags.push(
                                        PreprocessorDiagnostic::ArgumentCount(
                                            FunctionCallArgumentCount::new(
                                                t.clone(),
                                                f.params.len(),
                                                args.len(),
                                                defines,
                                            ),
                                        ),
                                    );
                                    let mut k = i;
                                    let ghost out_mid = out@;
                                    proof {
                                        assert(out@ =~= out_mid + input@.subrange(
                                            i as int,
                                            i as int,
                                        ).map_values(|t: Token| Emitted { token: t, via: *via }));
                                    }
                                    while k < next
                                        invariant
                                            i <= k <= next <= input@.len(),
                                            out@ == out_mid + input@.subrange(
                                                i as int,
                                                k as int,
                                            ).map_values(
                                                |t: Token| Emitted { token: t, via: *via },
                                            ),
                                        decreases next - k,
                                    {
                                        emit(out, &input[k], via);
                                        proof {
                                            assert(out@ =~= out_mid + input@.subrange(
                                                i as int,
                                                k + 1,
                                            ).map_values(
                                                |t: Token| Emitted { token: t, via: *via },
                                            ));
                                        }
                                        k = k + 1;
                                    }
                                    proof {
                                        if i == 0 {
                                            assert(input@.subrange(0, next as int)
                                                =~= input@.take(next as int));
                                            if next == input.len() {
                                                assert(input@.take(input@.len() as int) =~= input@);
                                            }
                                        }
                                    }
                                    i = next;
                                } else {
                                    if depth == 0 {
                                        let mut k = i;
                                        let ghost out_mid = out@;
                                        while k < next
                                            invariant
                                                i <= k <= next <= input@.len(),
                                                out@.len() >= out_mid.len(),
                                                forall|q: int|
                                                    0 <= q < out_mid.len() ==> out@[q]
                                                        == out_mid[q],
                                            decreases next - k,
                                        {
                                            emit(out, &input[k], via);
                                            k = k + 1;
                                        }
                                        i = next;
                                    } else {
                                        let mut scope = Scope::new();
                                        let mut k: usize = 0;
                                        while k < f.params.len() && k < args.len()
                                            invariant
                                                scope.wf(),
                                                k <= f.params@.len(),
                                                forall|w: Seq<char>|
                                                    #[trigger] crate::scope::has_key(scope@, w)
                                                        ==> exists|k2: int|
                                                        0 <= k2 < k && spec_render(
                                                            (#[trigger] f.params@[k2]).symbol,
                                                        ) == w,
                                            decreases f.params@.len() - k,
                                        {
                                            let ghost old_scope = scope@;
                                            let pname = f.params[k].text();
                                            let value = Definition::Value(clone_tokens(&args[k]));
                                            let _ = scope.insert(
                                                pname.as_str(),
                                                f.params[k].clone(),
                                                value,
                                            );
                                            proof {
                                                assert forall|w: Seq<char>| #[trigger]
                                                    crate::scope::has_key(scope@, w) implies exists|
                                                    k2: int,
                                                |
                                                    0 <= k2 < k + 1 && spec_render(
                                                        (#[trigger] f.params@[k2]).symbol,
                                                    ) == w by {
                                                    if w == spec_render(f.params@[k as int].symbol) {
                                                        assert(0 <= k < k + 1 && spec_render(
                                                            f.params@[k as int].symbol,
                                                        ) == w);
                                                    } else {
                                                        assert(crate::scope::lookup(scope@, w)
                                                            == crate::scope::lookup(old_scope, w));
                                                        assert(crate::scope::has_key(old_scope, w));
                                                        let k2 = choose|k2: int|
                                                            0 <= k2 < k && spec_render(
                                                                (#[trigger] f.params@[k2]).symbol,
                                                            ) == w;
                                                    }
                                                }
                                            }
                                            k = k + 1;
                                        }
                                        let name = t.text();
                                        defines.push(name.as_str(), scope);
                                        proof {
                                            if head_flat_call(m0, input@, depth) && i == 0 {
                                                let fm = head_function(m0, input@).unwrap();
                                                let macro_name = spec_render(input@[0].symbol);
                                                assert(defines@.stack.last().0 == macro_name);
                                                assert forall|jj: int|
                                                    0 <= jj < f.body@.len() implies inert(
                                                    defines@,
                                                    #[trigger] f.body@[jj],
                                                ) by {
                                                    assert(body_token_inert(
                                                        m0,
                                                        macro_name,
                                                        fm.params,
                                                        fm.body[jj],
                                                    ));
                                                    match f.body@[jj].symbol.spec_word() {
                                                        Some(w) => {
                                                            if w != macro_name {
                                                                if crate::scope::has_key(
                                                                    defines@.stack.last().1,
                                                                    w,
                                                                ) {
                                                                    let k2 = choose|k2: int|
                                                                        0 <= k2 < f.params@.len()
                                                                            && spec_render(
                                                                            (
                                                                            #[trigger] f.params@[k2]).symbol,
                                                                        ) == w;
                                                                    assert(is_param_name(
                                                                        fm.params,
                                                                        w,
                                                                    ));
                                                                }
                                                            }
                                                        },
                                                        None => {},
                                                    }
                                                }
                                                assert(all_inert(defines@, f.body@));
                                            }
                                        }
                                        let new_via = match via {
                                            Some(v) => Some(v.clone()),
                                            None => Some(t.clone()),
                                        };
                                        expand_tokens(
                                            defines,
                                            &f.body,
                                            &new_via,
                                            depth - 1,
                                            out,
                                            diags,
                                        );
                                        defines.pop();
                                        proof {
                                            assert(defines@.stack =~= m0.stack);
                                            if head_flat_call(m0, input@, depth) && i == 0 {
                                                let fm = head_function(m0, input@).unwrap();
                                                let pr = head_args(input@).unwrap();
                                                assert(next == pr.1);
                                                assert(input@.subrange(pr.1, pr.1).map_values(
                                                    |tk: Token| Emitted { token: tk, via: *via },
                                                ) =~= Seq::<Emitted>::empty());
                                                assert(out@ =~= out0 + fm.body.map_values(
                                                    |tk: Token| Emitted {
                                                        token: tk,
                                                        via: via_or(*via, input@[0]),
                                                    },
                                                ) + input@.subrange(pr.1, pr.1).map_values(
                                                    |tk: Token| Emitted { token: tk, via: *via },
                                                ));
                                            }
                                        }
                                        i = next;
                                    }
                                }
                            },
                        }
                    }
                },
            }
        }
    }
    proof {
        if all_inert(m0, input@) {
            assert(input@.take(input@.len() as int) =~= input@);
        }
    }
}

fn is_whitespace(t: &Token) -> (r: bool)
    ensures
        r == (t.symbol is Whitespace),
{
    match t.symbol() {
        crate::symbol::Symbol::Whitespace => true,
        _ => false,
    }
}

fn is_left_paren(t: &Token) -> (r: bool)
    ensures
        r == (t.symbol is LeftParenthesis),
{
    match t.symbol() {
        crate::symbol::Symbol::LeftParenthesis => true,
        _ => false,
    }
}

/// Expands a whole token stream under the table, with a defensive ceiling on
/// nested expansion. The table's scopes come back exactly as they went in; a
/// stream with no bound words passes through unchanged with no diagnostics;
/// a call whose argument list never closes, or whose argument count does not
/// match its declaration, yields exactly one diagnostic and its tokens
/// preserved verbatim; a single value-macro word splices its body.
pub fn expand(input: &Vec<Token>, defines: &mut Defines, depth_limit: u64) -> (r: Expansion)
    requires
        old(defines).wf(),
    ensures
        final(defines).wf(),
        final(defines)@.global == old(defines)@.global,
        final(defines)@.stack == old(defines)@.stack,
        all_inert(old(defines)@, input@) ==> {
            &&& r.output@ == input@.map_values(
                |t: Token| Emitted { token: t, via: None::<Token> },
            )
            &&& r.diagnostics@.len() == 0
            &&& final(defines)@ == old(defines)@
        },
        (head_function(old(defines)@, input@) is Some && head_call_paren(input@) && head_args(
            input@,
        ) is None) ==> {
            &&& r.diagnostics@.len() == 1
            &&& (r.diagnostics@[0] matches PreprocessorDiagnostic::UnclosedCall { token } && token
                == input@[0])
            &&& r.output@ == input@.map_values(|t: Token| Emitted { token: t, via: None::<Token> })
            &&& final(defines)@ == old(defines)@
        },
        head_function(old(defines)@, input@) matches Some(fm) ==> (head_call_paren(input@) ==> (
        head_args(input@) matches Some(pr) ==> ((pr.0.len() != fm.params.len() && all_inert(
            old(defines)@,
            input@.skip(pr.1),
        )) ==> {
            &&& r.diagnostics@.len() == 1
            &&& (r.diagnostics@[0] matches PreprocessorDiagnostic::ArgumentCount(d) && d.token
                == input@[0] && d.expected == fm.params.len() && d.got == pr.0.len())
            &&& r.output@ == input@.map_values(|t: Token| Emitted { token: t, via: None::<Token> })
            &&& final(defines)@ == old(defines)@
        }))),
        head_value(old(defines)@, input@) matches Some(body) ==> ((depth_limit > 0 && all_inert(
            old(defines)@,
            body,
        ) && all_inert(old(defines)@, input@.skip(1))) ==> {
            &&& r.output@ == body.map_values(
                |t: Token| Emitted { token: t, via: Some(input@[0]) },
            ) + input@.skip(1).map_values(|t: Token| Emitted { token: t, via: None::<Token> })
            &&& r.diagnostics@.len() == 0
            &&& final(defines)@ == old(defines)@
        }),
        head_flat_call(old(defines)@, input@, depth_limit) ==> {
            &&& r.output@ == head_function(old(defines)@, input@).unwrap().body.map_values(
                |t: Token| Emitted { token: t, via: Some(input@[0]) },
            ) + input@.skip(head_args(input@).unwrap().1).map_values(
                |t: Token| Emitted { token: t, via: None::<Token> },
            )
            &&& r.diagnostics@.len() == 0
            &&& final(defines)@ == old(defines)@
        },
{
    let mut out: Vec<Emitted> = Vec::new();
    let mut diags: Vec<PreprocessorDiagnostic> = Vec::new();
    let via: Option<Token> = None;
    expand_tokens(defines, input, &via, depth_limit, &mut out, &mut diags);
    proof {
        if all_inert(old(defines)@, input@) {
            assert(out@ =~= input@.map_values(|t: Token| Emitted { token: t, via: None::<Token> }));
        }
        if head_function(old(defines)@, input@) is Some && head_call_paren(input@) {
            if head_args(input@) is None {
                assert(out@ =~= input@.map_values(
                    |t: Token| Emitted { token: t, via: None::<Token> },
                ));
                assert(diags@[0] == diags@.last());
            }
            if head_args(input@) matches Some(pr)
                && pr.0.len() != head_function(old(defines)@, input@).unwrap().params.len()
                && all_inert(old(defines)@, input@.skip(pr.1)) {
                assert(out@ =~= input@.map_values(
                    |t: Token| Emitted { token: t, via: None::<Token> },
                ));
                assert(diags@[0] == diags@.last());
            }
        }
        if head_value(old(defines)@, input@) is Some && depth_limit > 0 && all_inert(
            old(defines)@,
            head_value(old(defines)@, input@).unwrap(),
        ) && all_inert(old(defines)@, input@.skip(1)) {
            let body = head_value(old(defines)@, input@).unwrap();
            assert(via_or(via, input@[0]) == Some(input@[0]));
            assert(out@ =~= body.map_values(|t: Token| Emitted { token: t, via: Some(input@[0]) })
                + input@.skip(1).map_values(|t: Token| Emitted { token: t, via: None::<Token> }));
        }
    }
    Expansion { output: out, diagnostics: diags }
}

/// How many expanded-stream characters a token occupies.
pub open spec fn rendered_len(t: Token) -> nat {
    crate::symbol::spec_render(t.symbol).len()
}

/// The characters the first `j` emitted tokens occupy.
pub open spec fn prefix_len_sum(out: Seq<Emitted>, j: int) -> nat
    decreases j,
{
    if j <= 0 {
        0
    } else {
        prefix_len_sum(out, j - 1) + rendered_len(out[j - 1].token)
    }
}

/// How many of the first `j` emitted tokens occupy any characters at all.
pub open spec fn pos_count(out: Seq<Emitted>, j: int) -> nat
    decreases j,
{
    if j <= 0 {
        0
    } else {
        pos_count(out, j - 1) + if rendered_len(out[j - 1].token) > 0 {
            1nat
        } else {
            0
        }
    }
}

/// Whether recording from the `j`-th emitted token on, with `base`
/// characters already recorded, runs into a token whose file was never
/// registered or an overflowing stream length.
pub open spec fn record_fails(
    sources: Seq<(crate::position::WorkspacePath, String)>,
    base: nat,
    out: Seq<Emitted>,
    j: int,
) -> bool
    decreases out.len() - j,
{
    if j < 0 || j >= out.len() {
        false
    } else {
        let len = rendered_len(out[j].token);
        if len == 0 {
            record_fails(sources, base, out, j + 1)
        } else if !crate::processed::spec_has_source(sources, out[j].token.position.spec_path()) {
            true
        } else if base + len > usize::MAX {
            true
        } else {
            record_fails(sources, base + len, out, j + 1)
        }
    }
}

/// Records provenance for every emitted token: one record per token of
/// positive rendered length, in emission order, each linking the next range
/// of the expanded stream back to the token's original position and through
/// its invocation. Fails exactly when some token's file was never registered
/// or the stream length would overflow; the mapping stays total either way.
pub fn record_expansion(processed: &mut Processed, output: &Vec<Emitted>) -> (ok: bool)
    requires
        old(processed).wf(),
    ensures
        final(processed).wf(),
        final(processed).sources == old(processed).sources,
        forall|k: int|
            0 <= k < old(processed).mappings@.len() ==> final(processed).mappings@[k] == old(
                processed,
            ).mappings@[k],
        ok == !record_fails(
            old(processed).sources@,
            old(processed).total as nat,
            output@,
            0,
        ),
        ok ==> {
            &&& final(processed).total == old(processed).total + prefix_len_sum(
                output@,
                output@.len() as int,
            )
            &&& final(processed).mappings@.len() == old(processed).mappings@.len() + pos_count(
                output@,
                output@.len() as int,
            )
            &&& forall|j: int|
                0 <= j < output@.len() && rendered_len((#[trigger] output@[j]).token) > 0 ==> {
                    let k = (old(processed).mappings@.len() + pos_count(output@, j)) as int;
                    let start = (old(processed).total + prefix_len_sum(output@, j)) as int;
                    &&& k < final(processed).mappings@.len()
                    &&& final(processed).mappings@[k].processed_start == start
                    &&& final(processed).mappings@[k].processed_end == start + rendered_len(
                        output@[j].token,
                    )
                    &&& final(processed).mappings@[k].token == output@[j].token
                    &&& final(processed).mappings@[k].via == output@[j].via
                }
        },
{
    let mut i: usize = 0;
    while i < output.len()
        invariant
            processed.wf(),
            processed.sources == old(processed).sources,
            i <= output@.len(),
            processed.total == old(processed).total + prefix_len_sum(output@, i as int),
            processed.mappings@.len() == old(processed).mappings@.len() + pos_count(
                output@,
                i as int,
            ),
            forall|k: int|
                0 <= k < old(processed).mappings@.len() ==> processed.mappings@[k] == old(
                    processed,
                ).mappings@[k],
            record_fails(old(processed).sources@, old(processed).total as nat, output@, 0)
                == record_fails(old(processed).sources@, processed.total as nat, output@, i as int),
            forall|j: int|
                0 <= j < i && rendered_len((#[trigger] output@[j]).token) > 0 ==> {
                    let k = (old(processed).mappings@.len() + pos_count(output@, j)) as int;
                    let start = (old(processed).total + prefix_len_sum(output@, j)) as int;
                    &&& k < processed.mappings@.len()
                    &&& processed.mappings@[k].processed_start == start
                    &&& processed.mappings@[k].processed_end == start + rendered_len(
                        output@[j].token,
                    )
                    &&& processed.mappings@[k].token == output@[j].token
                    &&& processed.mappings@[k].via == output@[j].via
                }
        decreases output@.len() - i,
    {
        let e = &output[i];
        let text = e.token.text();
        let len = text.as_str().unicode_len();
        let via = clone_opt_token(&e.via);
        let ghost pre = *processed;
        if !processed.append_token(&e.token, len, via) {
            return false;
        }
        proof {
            assert(prefix_len_sum(output@, i + 1) == prefix_len_sum(output@, i as int)
                + rendered_len(output@[i as int].token));
            assert(pos_count(output@, i + 1) == pos_count(output@, i as int) + if rendered_len(
                output@[i as int].token,
            ) > 0 {
                1nat
            } else {
                0
            });
        }
        i = i + 1;
    }
    true
}

} // verus!
