use hemtt_core::defines::Defines;
use hemtt_core::definition::{Definition, FunctionDefinition};
use hemtt_core::expand::{expand, PreprocessorDiagnostic};
use hemtt_core::position::{LineCol, Position, WorkspacePath};
use hemtt_core::scope::Scope;
use hemtt_core::symbol::Symbol;
use hemtt_core::token::Token;

fn wp(path: &str) -> WorkspacePath {
    WorkspacePath::new(path.to_string(), None)
}

fn pos(path: &str, offset: usize, line: usize, col: usize, len: usize) -> Position {
    Position::new(
        LineCol::new(offset, line, col),
        LineCol::new(offset + len, line, col + len),
        wp(path),
    )
}

fn word(text: &str, path: &str, offset: usize, line: usize, col: usize) -> Token {
    Token::new(Symbol::Word(text.to_string()), pos(path, offset, line, col, text.len()))
}

fn punct(sym: Symbol, path: &str, offset: usize, line: usize, col: usize) -> Token {
    Token::new(sym, pos(path, offset, line, col, 1))
}

fn digit_of(def: &Definition) -> u64 {
    match def {
        Definition::Value(ts) => match ts[0].symbol() {
            Symbol::Digit(n) => *n,
            _ => panic!("expected a digit token"),
        },
        _ => panic!("expected a value definition"),
    }
}

#[test]
fn counter_starts_at_zero_and_increases() {
    let mut d = Defines::new();
    let site = pos("main.cpp", 40, 4, 0, 11);
    let t1 = word("__COUNTER__", "main.cpp", 40, 4, 0);
    let (_, v1) = d.get_with_gen(&t1, Some(&site)).unwrap();
    let t2 = word("__COUNTER__", "main.cpp", 80, 8, 0);
    let (_, v2) = d.get_with_gen(&t2, Some(&site)).unwrap();
    assert_eq!(digit_of(&v1), 0);
    assert_eq!(digit_of(&v2), 1);
    assert!(digit_of(&v1) < digit_of(&v2));
}

#[test]
fn counter_reset_starts_over() {
    let mut d = Defines::new();
    let site = pos("main.cpp", 0, 1, 0, 11);
    let t = word("__COUNTER__", "main.cpp", 0, 1, 0);
    let (_, v1) = d.get_with_gen(&t, Some(&site)).unwrap();
    assert_eq!(digit_of(&v1), 0);
    let r = word("__COUNTER_RESET__", "main.cpp", 20, 2, 0);
    let (_, void) = d.get_with_gen(&r, Some(&site)).unwrap();
    assert!(matches!(void, Definition::Void));
    let (_, v2) = d.get_with_gen(&t, Some(&site)).unwrap();
    assert_eq!(digit_of(&v2), 0);
}

#[test]
fn line_builtin_uses_invocation_site() {
    let mut d = Defines::new();
    let site = pos("main.cpp", 90, 17, 4, 8);
    let t = word("__LINE__", "main.cpp", 90, 17, 4);
    let (_, v) = d.get_with_gen(&t, Some(&site)).unwrap();
    assert_eq!(digit_of(&v), 17);
}

#[test]
fn file_builtin_prefixes_known_project() {
    let mut d = Defines::new();
    let prefixed = Position::new(
        LineCol::new(0, 1, 0),
        LineCol::new(8, 1, 8),
        WorkspacePath::new("addons/main/config.cpp".to_string(), Some("z\\myproject".to_string())),
    );
    let t = word("__FILE__", "main.cpp", 0, 1, 0);
    let (_, v) = d.get_with_gen(&t, Some(&prefixed)).unwrap();
    match &v {
        Definition::Value(ts) => {
            assert_eq!(ts.len(), 3);
            assert!(matches!(ts[0].symbol(), Symbol::DoubleQuote));
            assert!(matches!(ts[2].symbol(), Symbol::DoubleQuote));
            match ts[1].symbol() {
                Symbol::Word(w) => assert_eq!(w, "z\\myproject\\addons/main/config.cpp"),
                _ => panic!("expected a word"),
            }
        }
        _ => panic!("expected a value"),
    }
    let bare = pos("addons/main/config.cpp", 0, 1, 0, 8);
    let (_, v2) = d.get_with_gen(&t, Some(&bare)).unwrap();
    match &v2 {
        Definition::Value(ts) => match ts[1].symbol() {
            Symbol::Word(w) => assert_eq!(w, "addons/main/config.cpp"),
            _ => panic!("expected a word"),
        },
        _ => panic!("expected a value"),
    }
}

#[test]
fn is_builtin_covers_generated_constants_and_refused() {
    assert!(Defines::is_builtin("__COUNTER__"));
    assert!(Defines::is_builtin("__COUNTER_RESET__"));
    assert!(Defines::is_builtin("__FILE__"));
    assert!(Defines::is_builtin("__LINE__"));
    assert!(Defines::is_builtin("__ARMA__"));
    assert!(Defines::is_builtin("__ARMA3__"));
    assert!(Defines::is_builtin("__TIME__"));
    assert!(Defines::is_builtin("__GAME_VER__"));
    assert!(!Defines::is_builtin("MY_MACRO"));
}

#[test]
fn self_reference_resolves_as_absent() {
    let mut d = Defines::new();
    // ALPHA is a function-like macro defined on lines 2..4 of defs.hpp.
    let def_pos = Position::new(LineCol::new(10, 2, 0), LineCol::new(60, 4, 10), wp("defs.hpp"));
    let param = word("X", "defs.hpp", 22, 2, 12);
    let body_ref = word("ALPHA", "defs.hpp", 40, 3, 4);
    let f = FunctionDefinition::new(def_pos, vec![param], vec![body_ref.clone()]);
    let definer = word("ALPHA", "defs.hpp", 10, 2, 0);
    d.insert("ALPHA", (definer, Definition::Function(f)));

    // Looked up from inside its own body it is absent.
    assert!(d.get_with_gen(&body_ref, None).is_none());
    // Looked up from elsewhere in the same file it resolves.
    let outside = word("ALPHA", "defs.hpp", 200, 12, 0);
    assert!(d.get_with_gen(&outside, None).is_some());
    // Looked up from another file it resolves.
    let elsewhere = word("ALPHA", "main.cpp", 0, 3, 0);
    assert!(d.get_with_gen(&elsewhere, None).is_some());
}

#[test]
fn current_scope_name_reported_absent() {
    let mut d = Defines::new();
    let definer = word("ALPHA", "defs.hpp", 0, 1, 0);
    d.insert("ALPHA", (definer, Definition::Void));
    assert!(d.contains_key("ALPHA"));
    d.push("ALPHA", Scope::new());
    assert!(!d.contains_key("ALPHA"));
    d.pop();
    assert!(d.contains_key("ALPHA"));
}

#[test]
fn insert_shadows_in_innermost_scope() {
    let mut d = Defines::new();
    let g = word("NAME", "a.hpp", 0, 1, 0);
    d.insert("NAME", (g, Definition::Void));
    d.push("CALL", Scope::new());
    let shadow = word("NAME", "b.hpp", 0, 1, 0);
    let prev = d.insert("NAME", (shadow, Definition::Value(Vec::new())));
    assert!(prev.is_none());
    let (_, got) = d.get_readonly("NAME").unwrap();
    assert!(matches!(got, Definition::Value(_)));
    let removed = d.remove("NAME");
    assert!(removed.is_some());
    d.pop();
    let (_, after) = d.get_test("NAME").unwrap();
    assert!(matches!(after, Definition::Void));
}

#[test]
fn value_macro_expands_and_nested_value_rescans() {
    let mut d = Defines::new();
    let hello = word("hello", "defs.hpp", 30, 3, 8);
    let inner = word("INNER", "defs.hpp", 10, 1, 8);
    d.insert(
        "OUTER",
        (word("OUTER", "defs.hpp", 0, 1, 0), Definition::Value(vec![inner])),
    );
    d.insert(
        "INNER",
        (word("INNER", "defs.hpp", 20, 2, 0), Definition::Value(vec![hello])),
    );
    let input = vec![word("OUTER", "main.cpp", 0, 1, 0)];
    let r = expand(&input, &mut d, 16);
    assert!(r.diagnostics.is_empty());
    assert_eq!(r.output.len(), 1);
    assert_eq!(r.output[0].token.text(), "hello");
    // The provenance chain passes through the outermost invocation.
    assert_eq!(r.output[0].via.as_ref().unwrap().text(), "OUTER");
}

#[test]
fn untouched_tokens_pass_through() {
    let mut d = Defines::new();
    let input = vec![
        word("class", "main.cpp", 0, 1, 0),
        punct(Symbol::Whitespace, "main.cpp", 5, 1, 5),
        word("Thing", "main.cpp", 6, 1, 6),
        punct(Symbol::Comma, "main.cpp", 11, 1, 11),
    ];
    let r = expand(&input, &mut d, 16);
    assert!(r.diagnostics.is_empty());
    assert_eq!(r.output.len(), 4);
    for (i, e) in r.output.iter().enumerate() {
        assert_eq!(e.token.text(), input[i].text());
        assert!(e.via.is_none());
    }
}

#[test]
fn function_macro_binds_arguments() {
    let mut d = Defines::new();
    let def_pos = Position::new(LineCol::new(0, 1, 0), LineCol::new(30, 1, 30), wp("defs.hpp"));
    let param = word("X", "defs.hpp", 15, 1, 15);
    let body = vec![
        word("X", "defs.hpp", 20, 1, 20),
        punct(Symbol::Comma, "defs.hpp", 21, 1, 21),
        word("X", "defs.hpp", 22, 1, 22),
    ];
    let f = FunctionDefinition::new(def_pos, vec![param], body);
    d.insert("PAIR", (word("PAIR", "defs.hpp", 0, 1, 0), Definition::Function(f)));
    let input = vec![
        word("PAIR", "main.cpp", 0, 5, 0),
        punct(Symbol::LeftParenthesis, "main.cpp", 4, 5, 4),
        word("boom", "main.cpp", 5, 5, 5),
        punct(Symbol::RightParenthesis, "main.cpp", 9, 5, 9),
    ];
    let r = expand(&input, &mut d, 16);
    assert!(r.diagnostics.is_empty());
    let texts: Vec<String> = r.output.iter().map(|e| e.token.text()).collect();
    assert_eq!(texts, vec!["boom", ",", "boom"]);
    // The call scope was popped again.
    assert!(d.stack().is_empty());
}

#[test]
fn self_referential_function_terminates() {
    let mut d = Defines::new();
    let def_pos = Position::new(LineCol::new(10, 2, 0), LineCol::new(60, 4, 10), wp("defs.hpp"));
    let param = word("X", "defs.hpp", 22, 2, 12);
    let body_ref = word("ALPHA", "defs.hpp", 40, 3, 4);
    let f = FunctionDefinition::new(def_pos, vec![param], vec![body_ref]);
    d.insert("ALPHA", (word("ALPHA", "defs.hpp", 10, 2, 0), Definition::Function(f)));
    let input = vec![
        word("ALPHA", "main.cpp", 0, 9, 0),
        punct(Symbol::LeftParenthesis, "main.cpp", 5, 9, 5),
        word("y", "main.cpp", 6, 9, 6),
        punct(Symbol::RightParenthesis, "main.cpp", 7, 9, 7),
    ];
    let r = expand(&input, &mut d, 16);
    assert!(r.diagnostics.is_empty());
    // The body's self-reference resolves as absent and passes through
    // literally instead of recursing forever.
    let texts: Vec<String> = r.output.iter().map(|e| e.token.text()).collect();
    assert_eq!(texts, vec!["ALPHA"]);
}

#[test]
fn argument_count_mismatch_reports_once_and_preserves_tokens() {
    let mut d = Defines::new();
    let def_pos = Position::new(LineCol::new(0, 1, 0), LineCol::new(30, 1, 30), wp("defs.hpp"));
    let params = vec![word("A", "defs.hpp", 10, 1, 10), word("B", "defs.hpp", 12, 1, 12)];
    let body = vec![word("A", "defs.hpp", 20, 1, 20)];
    let f = FunctionDefinition::new(def_pos, params, body);
    d.insert("TWO", (word("TWO", "defs.hpp", 0, 1, 0), Definition::Function(f)));
    let input = vec![
        word("TWO", "main.cpp", 0, 3, 0),
        punct(Symbol::LeftParenthesis, "main.cpp", 3, 3, 3),
        word("only", "main.cpp", 4, 3, 4),
        punct(Symbol::RightParenthesis, "main.cpp", 8, 3, 8),
    ];
    let r = expand(&input, &mut d, 16);
    assert_eq!(r.diagnostics.len(), 1);
    match &r.diagnostics[0] {
        PreprocessorDiagnostic::ArgumentCount(c) => {
            assert_eq!(c.expected, 2);
            assert_eq!(c.got, 1);
            assert_eq!(
                c.message(),
                "function call with incorrect number of arguments, expected `2` got `1`"
            );
            assert_eq!(c.ident(), "PE9");
        }
        _ => panic!("expected an argument-count diagnostic"),
    }
    // The call site is preserved as-is, not silently expanded.
    let texts: Vec<String> = r.output.iter().map(|e| e.token.text()).collect();
    assert_eq!(texts, vec!["TWO", "(", "only", ")"]);
}

#[test]
fn matched_call_splices_body_and_keeps_tail() {
    let mut d = Defines::new();
    let def_pos = Position::new(LineCol::new(0, 1, 0), LineCol::new(30, 1, 30), wp("defs.hpp"));
    let f = FunctionDefinition::new(
        def_pos,
        vec![word("X", "defs.hpp", 8, 1, 8)],
        vec![word("fixed", "defs.hpp", 12, 1, 12)],
    );
    d.insert("NOP", (word("NOP", "defs.hpp", 0, 1, 0), Definition::Function(f)));
    let input = vec![
        word("NOP", "main.cpp", 0, 3, 0),
        punct(Symbol::LeftParenthesis, "main.cpp", 3, 3, 3),
        word("y", "main.cpp", 4, 3, 4),
        punct(Symbol::RightParenthesis, "main.cpp", 5, 3, 5),
        word("tail", "main.cpp", 7, 3, 7),
    ];
    let r = expand(&input, &mut d, 16);
    assert!(r.diagnostics.is_empty());
    let texts: Vec<String> = r.output.iter().map(|e| e.token.text()).collect();
    assert_eq!(texts, vec!["fixed", "tail"]);
    assert_eq!(r.output[0].via.as_ref().unwrap().text(), "NOP");
    assert!(r.output[1].via.is_none());
}

#[test]
fn mismatched_call_still_emits_surrounding_tokens() {
    let mut d = Defines::new();
    let def_pos = Position::new(LineCol::new(0, 1, 0), LineCol::new(30, 1, 30), wp("defs.hpp"));
    let params = vec![word("A", "defs.hpp", 10, 1, 10), word("B", "defs.hpp", 12, 1, 12)];
    let f = FunctionDefinition::new(def_pos, params, Vec::new());
    d.insert("TWO", (word("TWO", "defs.hpp", 0, 1, 0), Definition::Function(f)));
    let input = vec![
        word("TWO", "main.cpp", 0, 3, 0),
        punct(Symbol::LeftParenthesis, "main.cpp", 3, 3, 3),
        word("only", "main.cpp", 4, 3, 4),
        punct(Symbol::RightParenthesis, "main.cpp", 8, 3, 8),
        punct(Symbol::Whitespace, "main.cpp", 9, 3, 9),
        word("after", "main.cpp", 10, 3, 10),
    ];
    let r = expand(&input, &mut d, 16);
    // Exactly one diagnostic; the call site and the rest of the stream all
    // still emit, none of it expanded.
    assert_eq!(r.diagnostics.len(), 1);
    let texts: Vec<String> = r.output.iter().map(|e| e.token.text()).collect();
    assert_eq!(texts, vec!["TWO", "(", "only", ")", " ", "after"]);
}

#[test]
fn unclosed_call_reports_and_preserves_tokens() {
    let mut d = Defines::new();
    let def_pos = Position::new(LineCol::new(0, 1, 0), LineCol::new(30, 1, 30), wp("defs.hpp"));
    let f = FunctionDefinition::new(def_pos, vec![word("A", "defs.hpp", 10, 1, 10)], Vec::new());
    d.insert("OPEN", (word("OPEN", "defs.hpp", 0, 1, 0), Definition::Function(f)));
    let input = vec![
        word("OPEN", "main.cpp", 0, 3, 0),
        punct(Symbol::LeftParenthesis, "main.cpp", 4, 3, 4),
        word("a", "main.cpp", 5, 3, 5),
    ];
    let r = expand(&input, &mut d, 16);
    assert_eq!(r.diagnostics.len(), 1);
    assert!(matches!(&r.diagnostics[0], PreprocessorDiagnostic::UnclosedCall { .. }));
    let texts: Vec<String> = r.output.iter().map(|e| e.token.text()).collect();
    assert_eq!(texts, vec!["OPEN", "(", "a"]);
}

#[test]
fn nested_commas_do_not_split_arguments() {
    let mut d = Defines::new();
    let def_pos = Position::new(LineCol::new(0, 1, 0), LineCol::new(30, 1, 30), wp("defs.hpp"));
    let body = vec![word("X", "defs.hpp", 20, 1, 20)];
    let f = FunctionDefinition::new(def_pos, vec![word("X", "defs.hpp", 10, 1, 10)], body);
    d.insert("ONE", (word("ONE", "defs.hpp", 0, 1, 0), Definition::Function(f)));
    // ONE((a,b)) has a single argument "(a,b)".
    let input = vec![
        word("ONE", "main.cpp", 0, 3, 0),
        punct(Symbol::LeftParenthesis, "main.cpp", 3, 3, 3),
        punct(Symbol::LeftParenthesis, "main.cpp", 4, 3, 4),
        word("a", "main.cpp", 5, 3, 5),
        punct(Symbol::Comma, "main.cpp", 6, 3, 6),
        word("b", "main.cpp", 7, 3, 7),
        punct(Symbol::RightParenthesis, "main.cpp", 8, 3, 8),
        punct(Symbol::RightParenthesis, "main.cpp", 9, 3, 9),
    ];
    let r = expand(&input, &mut d, 16);
    assert!(r.diagnostics.is_empty());
    let texts: Vec<String> = r.output.iter().map(|e| e.token.text()).collect();
    assert_eq!(texts, vec!["(", "a", ",", "b", ")"]);
}

#[test]
fn similar_function_ranks_deterministically() {
    let mut d = Defines::new();
    let def_pos = Position::new(LineCol::new(0, 1, 0), LineCol::new(5, 1, 5), wp("defs.hpp"));
    for name in ["alpha", "alphb", "alpqq", "alp", "zzzzzzzz"] {
        let f = FunctionDefinition::new(
            def_pos.clone(),
            vec![word("X", "defs.hpp", 2, 1, 2)],
            Vec::new(),
        );
        d.insert(name, (word(name, "defs.hpp", 0, 1, 0), Definition::Function(f)));
    }
    let first = d.similar_function("alpha", Some(1));
    let second = d.similar_function("alpha", Some(1));
    assert_eq!(first, second);
    assert_eq!(first, vec!["alpha", "alphb", "alp"]);
    assert!(first.len() <= 3);
    // Arity filtering rules everything out.
    let none = d.similar_function("alpha", Some(7));
    assert!(none.is_empty());
}

#[test]
fn similar_values_ignores_functions() {
    let mut d = Defines::new();
    d.insert(
        "value_one",
        (word("value_one", "defs.hpp", 0, 1, 0), Definition::Value(Vec::new())),
    );
    let def_pos = Position::new(LineCol::new(0, 1, 0), LineCol::new(5, 1, 5), wp("defs.hpp"));
    let f = FunctionDefinition::new(def_pos, Vec::new(), Vec::new());
    d.insert(
        "value_two",
        (word("value_two", "defs.hpp", 0, 2, 0), Definition::Function(f)),
    );
    let r = d.similar_values("value_onX");
    assert_eq!(r, vec!["value_one"]);
}

#[test]
fn value_self_reference_terminates_at_ceiling() {
    // A value macro whose body is its own name: the positional guard covers
    // function-like macros only, so the depth ceiling stops this one, and
    // the name passes through literally.
    let mut d = Defines::new();
    d.insert(
        "LOOP",
        (
            word("LOOP", "defs.hpp", 0, 1, 0),
            Definition::Value(vec![word("LOOP", "defs.hpp", 6, 1, 6)]),
        ),
    );
    let input = vec![word("LOOP", "main.cpp", 0, 1, 0)];
    let r = expand(&input, &mut d, 32);
    assert!(r.diagnostics.is_empty());
    assert_eq!(r.output.len(), 1);
    assert_eq!(r.output[0].token.text(), "LOOP");
}

#[test]
fn expansion_depth_ceiling_degrades_to_passthrough() {
    let mut d = Defines::new();
    // Two distinct macros each invoking the other: the guard does not catch
    // this, the ceiling does.
    d.insert(
        "PING",
        (
            word("PING", "defs.hpp", 0, 1, 0),
            Definition::Value(vec![word("PONG", "defs.hpp", 6, 1, 6)]),
        ),
    );
    d.insert(
        "PONG",
        (
            word("PONG", "defs.hpp", 20, 2, 0),
            Definition::Value(vec![word("PING", "defs.hpp", 26, 2, 6)]),
        ),
    );
    let input = vec![word("PING", "main.cpp", 0, 1, 0)];
    let r = expand(&input, &mut d, 9);
    assert_eq!(r.output.len(), 1);
    assert!(r.output[0].token.text() == "PING" || r.output[0].token.text() == "PONG");
}
