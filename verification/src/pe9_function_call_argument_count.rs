//! A function-like macro was called with the wrong number of arguments.

use vstd::prelude::*;
use crate::code::{make_annotation, Annotation, AnnotationLevel, Code, EditorDiagnostic};
use crate::defines::{model_get, Defines};
use crate::definition::DefinitionModel;
use crate::report::{
    build_error_report, color_generator, colored, colored_as, is_rendering, label_new,
    label_with_color, label_with_message, next_color, report_finish, report_with_code,
    report_with_help, report_with_label, report_with_message, spec_sources, write_report,
    LabelModel, ReportModel,
};
use crate::similarity::{function_candidate, similar_post};
use crate::strings::spec_dec;
use crate::symbol::spec_render;
use crate::token::{clone_tokens, Token};

verus! {

/// A function-like macro was invoked with the wrong number of arguments:
/// what was called, what was expected and found, up to three similarly named
/// function macros of that arity, and where the macro was defined.
pub struct FunctionCallArgumentCount {
    pub token: Token,
    pub expected: usize,
    pub got: usize,
    pub similar: Vec<String>,
    pub defined: (Token, Vec<Token>),
}

/// The primary message: expected and found counts, exactly.
pub open spec fn pe9_message(expected: nat, got: nat) -> Seq<char> {
    "function call with incorrect number of arguments, expected `"@ + spec_dec(expected)
        + "` got `"@ + spec_dec(got) + "`"@
}

/// The label message.
pub open spec fn pe9_label_message(expected: nat, got: nat) -> Seq<char> {
    "incorrect argument count, expected `"@ + spec_dec(expected) + "` got `"@ + spec_dec(got)
        + "`"@
}

/// The call-site label: how many arguments were given.
pub open spec fn pe9_called_here(got: nat) -> Seq<char> {
    "called with "@ + spec_dec(got) + " argument"@ + (if got == 1 {
        Seq::<char>::empty()
    } else {
        "s"@
    }) + " here"@
}

/// The definition-site label: how many parameters were declared.
pub open spec fn pe9_defined_here(n: nat) -> Seq<char> {
    "defined here with "@ + spec_dec(n) + " argument"@ + (if n == 1 {
        Seq::<char>::empty()
    } else {
        "s"@
    })
}

/// The first `i` pieces joined by backtick-comma.
pub open spec fn join_pieces(pieces: Seq<Seq<char>>, i: int) -> Seq<char>
    decreases i,
{
    if i <= 0 {
        Seq::empty()
    } else {
        join_pieces(pieces, i - 1) + (if i - 1 > 0 {
            "`, `"@
        } else {
            Seq::<char>::empty()
        }) + pieces[i - 1]
    }
}

/// The suggestion line: each suggested name, plain or wrapped in the
/// color's escape codes, in order, joined by backtick-comma.
pub open spec fn pe9_help_ok(similar: Seq<String>, c: ariadne::Color, h: Seq<char>) -> bool {
    exists|pieces: Seq<Seq<char>>|
        #![auto]
        pieces.len() == similar.len() && (forall|k: int|
            0 <= k < pieces.len() ==> colored_as(similar[k]@, c, pieces[k])) && h
            == "did you mean `"@ + join_pieces(pieces, pieces.len() as int) + "`"@
}

/// What the terminal report is built from: an error at the call site, the
/// call-site and definition-site labels, and — when there are similarly
/// named macros — the suggestion line `h`.
pub open spec fn pe9_report_model(
    d: FunctionCallArgumentCount,
    c: ariadne::Color,
    h: Seq<char>,
) -> ReportModel {
    ReportModel {
        error: true,
        path: d.token.position.spec_path(),
        start: d.token.position.start.offset,
        end: d.token.position.end.offset,
        code: Some("PE9"@),
        message: Some(pe9_message(d.expected as nat, d.got as nat)),
        labels: seq![
            LabelModel {
                path: d.token.position.spec_path(),
                start: d.token.position.start.offset,
                end: d.token.position.end.offset,
                message: Some(pe9_called_here(d.got as nat)),
                color: Some(c),
            },
            LabelModel {
                path: d.defined.0.position.spec_path(),
                start: d.defined.0.position.start.offset,
                end: d.defined.0.position.end.offset,
                message: Some(pe9_defined_here(d.defined.1@.len())),
                color: Some(c),
            },
        ],
        helps: if d.similar@.len() == 0 {
            Seq::empty()
        } else {
            seq![h]
        },
    }
}

/// Appending a piece does not change how the earlier ones join.
proof fn lemma_join_push(pieces: Seq<Seq<char>>, x: Seq<char>, i: int)
    requires
        i <= pieces.len(),
    ensures
        join_pieces(pieces.push(x), i) == join_pieces(pieces, i),
    decreases i,
{
    if i > 0 {
        lemma_join_push(pieces, x, i - 1);
        assert(pieces.push(x)[i - 1] == pieces[i - 1]);
    }
}

impl FunctionCallArgumentCount {
    /// Records the mismatched call; the called name must be a function-like
    /// define visible to the lookup.
    pub fn new(token: Token, expected: usize, got: usize, defines: &Defines) -> (r: Self)
        requires
            defines.wf(),
            model_get(defines@, spec_render(token.symbol)) matches Some(e) && e.definition
                is Function,
        ensures
            r.token == token,
            r.expected == expected,
            r.got == got,
            similar_post(
                r.similar@,
                spec_render(token.symbol),
                |n: Seq<char>| function_candidate(defines@.global, n, Some(got)),
            ),
            model_get(defines@, spec_render(token.symbol)) matches Some(e) && r.defined.0
                == e.definer && (e.definition matches DefinitionModel::Function(f) && r.defined.1@
                == f.params),
    {
        let name = token.text();
        let similar = defines.similar_function(name.as_str(), Some(got));
        let (definer, definition) = match defines.get_readonly(name.as_str()) {
            Some(p) => p,
            None => vstd::pervasive::unreached(),
        };
        let params = match definition.as_function() {
            Some(f) => clone_tokens(f.args()),
            None => vstd::pervasive::unreached(),
        };
        FunctionCallArgumentCount { token, expected, got, similar, defined: (definer, params) }
    }

    pub fn token(&self) -> (r: Option<&Token>)
        ensures
            r == Some(&self.token),
    {
        Some(&self.token)
    }

    pub fn ident(&self) -> (r: String)
        ensures
            r@ == "PE9"@,
    {
        "PE9".to_owned()
    }

    pub fn message(&self) -> (r: String)
        ensures
            r@ == pe9_message(self.expected as nat, self.got as nat),
    {
        let mut m: String =
            "function call with incorrect number of arguments, expected `".to_owned();
        m.append(crate::strings::u64_to_text(self.expected as u64).as_str());
        m.append("` got `");
        m.append(crate::strings::u64_to_text(self.got as u64).as_str());
        m.append("`");
        m
    }

    pub fn label_message(&self) -> (r: String)
        ensures
            r@ == pe9_label_message(self.expected as nat, self.got as nat),
    {
        let mut m: String = "incorrect argument count, expected `".to_owned();
        m.append(crate::strings::u64_to_text(self.expected as u64).as_str());
        m.append("` got `");
        m.append(crate::strings::u64_to_text(self.got as u64).as_str());
        m.append("`");
        m
    }

    pub fn help(&self) -> (r: Option<String>)
        ensures
            r is None,
    {
        None
    }

    /// The colored terminal report: the call site, the definition site, and
    /// similarly named macros as a suggestion. The caller supplies the
    /// source texts to quote, as path/text pairs.
    pub fn report_generate(&self, sources: &Vec<(String, String)>) -> (r: Option<String>)
        requires
            self.token.position.start.offset <= self.token.position.end.offset,
            self.defined.0.position.start.offset <= self.defined.0.position.end.offset,
        ensures
            r matches Some(s) ==> exists|c: ariadne::Color, h: Seq<char>|
                (self.similar@.len() == 0 || pe9_help_ok(self.similar@, c, h)) && is_rendering(
                    #[trigger] pe9_report_model(*self, c, h),
                    spec_sources(sources@),
                    s@,
                ),
    {
        let mut colors = color_generator();
        let a = next_color(&mut colors);
        let path = self.token.position().path().as_str().to_owned();
        let (start, end) = self.token.position().span();
        let mut report = build_error_report(&path, start, end);
        proof {
            reveal_strlit("PE9");
        }
        report = report_with_code(report, self.ident().as_str());
        report = report_with_message(report, &self.message());
        let mut called = String::new();
        called.append("called with ");
        called.append(crate::strings::u64_to_text(self.got as u64).as_str());
        called.append(" argument");
        if self.got != 1 {
            called.append("s");
        }
        called.append(" here");
        proof {
            assert(called@ =~= pe9_called_here(self.got as nat));
        }
        let mut call_label = label_new(&path, start, end);
        call_label = label_with_color(call_label, a);
        call_label = label_with_message(call_label, &called);
        report = report_with_label(report, call_label);
        let defined_path = self.defined.0.position().path().as_str().to_owned();
        let (dstart, dend) = self.defined.0.position().span();
        let mut defined = String::new();
        defined.append("defined here with ");
        defined.append(crate::strings::u64_to_text(self.defined.1.len() as u64).as_str());
        defined.append(" argument");
        if self.defined.1.len() != 1 {
            defined.append("s");
        }
        proof {
            assert(defined@ =~= pe9_defined_here(self.defined.1@.len()));
        }
        let mut def_label = label_new(&defined_path, dstart, dend);
        def_label = label_with_color(def_label, a);
        def_label = label_with_message(def_label, &defined);
        report = report_with_label(report, def_label);
        let ghost mut hmodel: Seq<char> = Seq::empty();
        if self.similar.len() > 0 {
            let mut help: String = "did you mean `".to_owned();
            let mut pieces: Ghost<Seq<Seq<char>>> = Ghost(Seq::empty());
            let mut i: usize = 0;
            proof {
                assert(help@ =~= "did you mean `"@ + join_pieces(pieces@, 0));
            }
            while i < self.similar.len()
                invariant
                    i <= self.similar@.len(),
                    pieces@.len() == i,
                    forall|k: int|
                        0 <= k < i ==> colored_as((#[trigger] self.similar@[k])@, a, pieces@[k]),
                    help@ == "did you mean `"@ + join_pieces(pieces@, i as int),
                decreases self.similar@.len() - i,
            {
                if i > 0 {
                    help.append("`, `");
                }
                let c = colored(self.similar[i].as_str(), a);
                help.append(c.as_str());
                proof {
                    let ghost old_pieces = pieces@;
                    pieces@ = pieces@.push(c@);
                    lemma_join_push(old_pieces, c@, i as int);
                    assert(help@ =~= "did you mean `"@ + join_pieces(pieces@, i + 1));
                }
                i = i + 1;
            }
            help.append("`");
            proof {
                hmodel = help@;
                assert(pieces@.len() == self.similar@.len() && (forall|k: int|
                    0 <= k < pieces@.len() ==> colored_as(
                        (#[trigger] self.similar@[k])@,
                        a,
                        pieces@[k],
                    )) && hmodel == "did you mean `"@ + join_pieces(pieces@, pieces@.len() as int)
                    + "`"@);
                assert(pe9_help_ok(self.similar@, a, hmodel));
            }
            report = report_with_help(report, &help);
        }
        proof {
            let target = pe9_report_model(*self, a, hmodel);
            assert(crate::report::builder_model(report).labels =~= target.labels);
            if self.similar@.len() == 0 {
                assert(crate::report::builder_model(report).helps =~= target.helps);
            } else {
                assert(crate::report::builder_model(report).helps =~= target.helps);
            }
            assert(crate::report::builder_model(report) == target);
        }
        write_report(&report_finish(report), sources)
    }

    /// The structured CI record, anchored at the call site.
    pub fn ci_generate(&self) -> (r: Vec<Annotation>)
        ensures
            r@.len() == 1,
            r@[0]@ == crate::code::spec_annotation(
                AnnotationLevel::Error,
                self.token.position.spec_path(),
                self.token.position,
                pe9_message(self.expected as nat, self.got as nat),
            ),
    {
        let mut v: Vec<Annotation> = Vec::new();
        v.push(
            make_annotation(
                AnnotationLevel::Error,
                self.token.position().path().as_str().to_owned(),
                self.token.position(),
                self.message(),
            ),
        );
        v
    }

    /// The editor-protocol diagnostic, anchored at the call site.
    pub fn generate_lsp(&self) -> (r: Option<(crate::position::WorkspacePath, EditorDiagnostic)>)
        ensures
            r matches Some(d) && d.0.spec_path() == self.token.position.spec_path()
                && d.1.start == self.token.position.start && d.1.end == self.token.position.end
                && d.1.message@ == pe9_label_message(self.expected as nat, self.got as nat)
                && d.1.error,
    {
        Some(
            (
                self.token.position().path().clone(),
                EditorDiagnostic {
                    path: self.token.position().path().clone(),
                    start: self.token.position().start(),
                    end: self.token.position().end(),
                    message: self.label_message(),
                    error: true,
                },
            ),
        )
    }
}

impl Code for FunctionCallArgumentCount {
    fn ident(&self) -> String {
        self.ident()
    }

    fn message(&self) -> String {
        self.message()
    }

    fn label_message(&self) -> String {
        self.label_message()
    }

    fn help(&self) -> Option<String> {
        self.help()
    }

    fn level(&self) -> AnnotationLevel {
        AnnotationLevel::Error
    }
}

} // verus!
