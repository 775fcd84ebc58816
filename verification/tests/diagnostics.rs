use hemtt_core::analyze::{Analyze, ConfigCode};
use hemtt_core::ce7_missing_parent::MissingParent;
use hemtt_core::code::AnnotationLevel;
use hemtt_core::config::{Class, Ident, Number};
use hemtt_core::cw2_magwell_missing_magazine::MagwellMissingMagazine;
use hemtt_core::defines::Defines;
use hemtt_core::definition::{Definition, FunctionDefinition};
use hemtt_core::expand::{expand, record_expansion};
use hemtt_core::pe14_include_unexpected_suffix::IncludeUnexpectedSuffix;
use hemtt_core::position::{LineCol, Position, WorkspacePath};
use hemtt_core::processed::Processed;
use hemtt_core::pw2_invalid_config_case::InvalidConfigCase;
use hemtt_core::symbol::Symbol;
use hemtt_core::token::Token;

fn wp(path: &str) -> WorkspacePath {
    WorkspacePath::new(path.to_string(), None)
}

fn tok(text: &str, path: &str, offset: usize, line: usize, col: usize) -> Token {
    Token::new(
        Symbol::Word(text.to_string()),
        Position::new(
            LineCol::new(offset, line, col),
            LineCol::new(offset + text.len(), line, col + text.len()),
            wp(path),
        ),
    )
}

/// An expanded unit whose text came from two files: the class header was
/// written in `config.cpp`, but the parent name `Missing` was spliced in by a
/// macro defined in `macros.hpp`. Returns the mapping plus the expanded-
/// stream spans of `Derived` and `Missing`.
fn processed_class() -> (Processed, Ident, Ident) {
    let mut p = Processed::new();
    p.add_source(wp("config.cpp"), "class Derived: PARENT {};".to_string());
    p.add_source(wp("macros.hpp"), "#define PARENT Missing".to_string());
    // Expanded stream: "class Derived: Missing {};"
    let pieces: [(&str, &str, usize, usize, usize); 4] = [
        ("class ", "config.cpp", 0, 1, 0),
        ("Derived", "config.cpp", 6, 1, 6),
        (": ", "config.cpp", 13, 1, 13),
        ("Missing", "macros.hpp", 15, 1, 15),
    ];
    let mut offset = 0;
    let mut derived = Ident::new("Derived".to_string(), 0, 0);
    let mut missing = Ident::new("Missing".to_string(), 0, 0);
    for (text, path, orig, line, col) in pieces {
        let t = tok(text, path, orig, line, col);
        let start = offset;
        offset += text.len();
        assert!(p.append_token(&t, text.len(), None));
        if text == "Derived" {
            derived = Ident::new("Derived".to_string(), start, offset);
        }
        if text == "Missing" {
            missing = Ident::new("Missing".to_string(), start, offset);
        }
    }
    (p, derived, missing)
}

#[test]
fn missing_parent_anchors_on_original_position() {
    let (p, derived, missing) = processed_class();
    let class = Class::new(Some(derived), Some(missing));
    let code = MissingParent::new(class);
    let anns = code.ci_generate_processed(&p);
    assert_eq!(anns.len(), 1);
    assert_eq!(anns[0].level, AnnotationLevel::Error);
    // Anchored in the file the macro body was written in, at its original,
    // pre-expansion position.
    assert_eq!(anns[0].path, "macros.hpp");
    assert_eq!(anns[0].start_line, 1);
    assert_eq!(anns[0].start_col, 15);
    assert_eq!(anns[0].message, "class's parent is not present");
    assert_eq!(code.ident(), "CE7");
    assert_eq!(code.message(), "class's parent is not present");
    assert_eq!(code.label_message(), "not present in config");
    assert_eq!(
        code.help(),
        Some("add `class Missing;` to the config to declare it as external".to_string())
    );
    let report = code.report_generate_processed(&p).unwrap();
    assert!(report.contains("CE7"));
    assert!(report.contains("class's parent is not present"));
}

#[test]
fn missing_parent_without_parent_yields_no_report() {
    let (p, derived, _) = processed_class();
    let code = MissingParent::new(Class::new(Some(derived), None));
    assert!(code.help().is_none());
    assert!(code.report_generate_processed(&p).is_none());
}

#[test]
fn magwell_missing_magazine_cites_name_and_span() {
    let mut p = Processed::new();
    p.add_source(
        wp("config.cpp"),
        "magazines[] = {MyMag};".to_string(),
    );
    let array = tok("magazines", "config.cpp", 0, 1, 0);
    let entry = tok("MyMag", "config.cpp", 15, 1, 15);
    assert!(p.append_token(&array, 9, None));
    assert!(p.append_token(&entry, 5, None));
    let code = MagwellMissingMagazine::new(
        Ident::new("magazines".to_string(), 0, 9),
        "MyMag".to_string(),
        9,
        13,
    );
    assert_eq!(code.ident(), "CW2");
    assert_eq!(
        code.message(),
        "magazine defined in CfgMagazineWells was not found in CfgMagazines"
    );
    assert_eq!(code.label_message(), "no matching magazine was found: `MyMag`");
    assert!(code.help().is_none());
    let anns = code.ci_generate_processed(&p);
    assert_eq!(anns.len(), 1);
    assert_eq!(anns[0].level, AnnotationLevel::Warning);
    assert_eq!(anns[0].path, "config.cpp");
    assert_eq!(anns[0].start_line, 1);
    assert_eq!(anns[0].start_col, 15);
    let report = code.report_generate_processed(&p).unwrap();
    assert!(report.contains("CW2"));
    assert!(report.contains("MyMag"));
}

#[test]
fn include_suffix_escapes_newlines() {
    let t = Token::new(
        Symbol::Newline,
        Position::new(LineCol::new(20, 2, 10), LineCol::new(21, 3, 0), wp("main.cpp")),
    );
    let code = IncludeUnexpectedSuffix::new(t);
    assert_eq!(code.ident(), "PE14");
    assert_eq!(code.message(), "unexpected tokens after include");
    assert_eq!(code.label_message(), "unexpected tokens after include `\\n`");
    let anns = code.ci_generate();
    assert_eq!(anns.len(), 1);
    assert_eq!(anns[0].level, AnnotationLevel::Error);
    assert_eq!(anns[0].path, "main.cpp");
    assert_eq!(anns[0].start_line, 2);
    assert_eq!(anns[0].start_col, 10);
    let sources = vec![("main.cpp".to_string(), "#include \"x.hpp\"\n".to_string())];
    assert!(code.report_generate(&sources).is_some());
    let (path, diag) = code.generate_lsp().unwrap();
    assert_eq!(path.as_str(), "main.cpp");
    assert!(diag.error);
}

#[test]
fn invalid_config_case_suggests_lowercase() {
    let code = InvalidConfigCase::new(wp("addons/main/Config.CPP"));
    assert_eq!(code.ident(), "PW2");
    assert_eq!(code.message(), "`Config.CPP` is not a valid case for a config");
    assert_eq!(
        code.help(),
        Some("Rename to `addons/main/config.cpp`".to_string())
    );
    let report = code.report_generate().unwrap();
    assert!(report.contains("PW2"));
    assert!(report.contains("is not a valid case for a config"));
    let anns = code.ci_generate();
    assert_eq!(anns.len(), 1);
    assert_eq!(anns[0].level, AnnotationLevel::Warning);
    assert_eq!(anns[0].path, "addons/main/Config.CPP");
    assert_eq!(anns[0].start_line, 0);
}

#[test]
fn argument_count_report_names_similar_macros() {
    let mut d = Defines::new();
    let def_pos = Position::new(LineCol::new(0, 1, 0), LineCol::new(20, 1, 20), wp("defs.hpp"));
    for name in ["SPAWN", "SPAWNS"] {
        let f = FunctionDefinition::new(
            def_pos.clone(),
            vec![tok("X", "defs.hpp", 8, 1, 8)],
            Vec::new(),
        );
        d.insert(name, (tok(name, "defs.hpp", 0, 1, 0), Definition::Function(f)));
    }
    let two_params = FunctionDefinition::new(
        def_pos.clone(),
        vec![tok("A", "defs.hpp", 8, 1, 8), tok("B", "defs.hpp", 10, 1, 10)],
        Vec::new(),
    );
    d.insert(
        "SPAWNX",
        (tok("SPAWNX", "defs.hpp", 0, 2, 0), Definition::Function(two_params)),
    );
    let call = tok("SPAWNX", "main.cpp", 0, 4, 0);
    let code = hemtt_core::pe9_function_call_argument_count::FunctionCallArgumentCount::new(
        call, 2, 1, &d,
    );
    // Suggestions are limited to function macros of the actual arity.
    assert_eq!(code.similar, vec!["SPAWN", "SPAWNS"]);
    assert_eq!(code.label_message(), "incorrect argument count, expected `2` got `1`");
    let sources = vec![
        ("main.cpp".to_string(), "SPAWNX(a)".to_string()),
        ("defs.hpp".to_string(), "#define SPAWNX(A,B) A".to_string()),
    ];
    assert!(code.report_generate(&sources).is_some());
    let anns = code.ci_generate();
    assert_eq!(anns.len(), 1);
    assert_eq!(anns[0].path, "main.cpp");
}

#[test]
fn mapping_is_total_and_idempotent() {
    let (p, _, missing) = processed_class();
    let m1 = p.mapping(missing.span_start).unwrap();
    let m2 = p.mapping(missing.span_start).unwrap();
    assert_eq!(m1.token().text(), m2.token().text());
    assert_eq!(m1.source(), m2.source());
    assert_eq!(m1.original_column(), m2.original_column());
    // The resolved source was actually read.
    let src = p.source(m1.source()).unwrap();
    assert_eq!(src.0.as_str(), m1.token().position().path().as_str());
    // Every emitted offset resolves; nothing beyond does.
    for offset in 0..p.total_len() {
        assert!(p.mapping(offset).is_some());
    }
    assert!(p.mapping(p.total_len()).is_none());
}

#[test]
fn expansion_records_total_provenance() {
    let mut d = Defines::new();
    d.insert(
        "GREETING",
        (
            tok("GREETING", "defs.hpp", 0, 1, 0),
            Definition::Value(vec![tok("hello", "defs.hpp", 17, 1, 17)]),
        ),
    );
    let input = vec![tok("GREETING", "main.cpp", 0, 1, 0), tok("world", "main.cpp", 9, 1, 9)];
    let r = expand(&input, &mut d, 16);
    let mut p = Processed::new();
    p.add_source(wp("defs.hpp"), "#define GREETING hello".to_string());
    p.add_source(wp("main.cpp"), "GREETING world".to_string());
    assert!(record_expansion(&mut p, &r.output));
    // "hello" then "world" in the expanded stream.
    assert_eq!(p.total_len(), 10);
    let first = p.mapping(0).unwrap();
    assert_eq!(first.token().text(), "hello");
    assert_eq!(p.source(first.source()).unwrap().0.as_str(), "defs.hpp");
    let second = p.mapping(5).unwrap();
    assert_eq!(second.token().text(), "world");
    assert_eq!(p.source(second.source()).unwrap().0.as_str(), "main.cpp");
}

#[test]
fn number_analyze_is_silent() {
    let p = Processed::new();
    let n = Number::Int32(7);
    assert!(n.valid(None));
    assert!(n.warnings(None, &p).is_empty());
    assert!(n.errors(None, &p).is_empty());
    let n64 = Number::Int64(1 << 40);
    assert!(n64.valid(None));
    let warnings: Vec<ConfigCode> = n64.warnings(None, &p);
    assert_eq!(warnings.len(), 0);
}
