//! Unexpected tokens followed an include directive.

use vstd::prelude::*;
use crate::code::{make_annotation, Annotation, AnnotationLevel, Code, EditorDiagnostic};
use crate::position::WorkspacePath;
use crate::report::{
    build_error_report, color_generator, label_new, label_with_color, label_with_message,
    is_rendering, next_color, report_finish, report_with_code, report_with_label,
    report_with_message, spec_sources, write_report, LabelModel, ReportModel,
};
use crate::strings::escape_nl;
use crate::token::Token;

verus! {

/// An include directive was followed by tokens where the line should end.
pub struct IncludeUnexpectedSuffix {
    pub token: Token,
}

/// The label message: the offending token's text, newlines escaped.
pub open spec fn pe14_label_message(token: Token) -> Seq<char> {
    "unexpected tokens after include `"@ + escape_nl(token.spec_text()) + "`"@
}

/// What the terminal report is built from: an error at the token's span,
/// with one label there saying the line should have ended.
pub open spec fn pe14_report_model(t: Token, c: ariadne::Color) -> ReportModel {
    ReportModel {
        error: true,
        path: t.position.spec_path(),
        start: t.position.start.offset,
        end: t.position.end.offset,
        code: Some("PE14"@),
        message: Some("unexpected tokens after include"@),
        labels: seq![
            LabelModel {
                path: t.position.spec_path(),
                start: t.position.start.offset,
                end: t.position.end.offset,
                message: Some("expected end of line"@),
                color: Some(c),
            },
        ],
        helps: Seq::empty(),
    }
}

impl IncludeUnexpectedSuffix {
    pub fn new(token: Token) -> (r: Self)
        ensures
            r.token == token,
    {
        IncludeUnexpectedSuffix { token }
    }

    pub fn token(&self) -> (r: Option<&Token>)
        ensures
            r == Some(&self.token),
    {
        Some(&self.token)
    }

    pub fn ident(&self) -> (r: String)
        ensures
            r@ == "PE14"@,
    {
        "PE14".to_owned()
    }

    pub fn message(&self) -> (r: String)
        ensures
            r@ == "unexpected tokens after include"@,
    {
        "unexpected tokens after include".to_owned()
    }

    pub fn label_message(&self) -> (r: String)
        ensures
            r@ == pe14_label_message(self.token),
    {
        let mut m: String = "unexpected tokens after include `".to_owned();
        m.append(crate::strings::escape_newlines(self.token.text().as_str()).as_str());
        m.append("`");
        m
    }

    pub fn help(&self) -> (r: Option<String>)
        ensures
            r is None,
    {
        None
    }

    /// The colored terminal report, anchored at the offending token, with
    /// one label there saying the line should have ended. The caller
    /// supplies the source texts to quote, as path/text pairs.
    pub fn report_generate(&self, sources: &Vec<(String, String)>) -> (r: Option<String>)
        requires
            self.token.position.start.offset <= self.token.position.end.offset,
        ensures
            r matches Some(s) ==> exists|c: ariadne::Color|
                is_rendering(
                    #[trigger] pe14_report_model(self.token, c),
                    spec_sources(sources@),
                    s@,
                ),
    {
        let mut colors = color_generator();
        let a = next_color(&mut colors);
        let path = self.token.position().path().as_str().to_owned();
        let (start, end) = self.token.position().span();
        let mut report = build_error_report(&path, start, end);
        proof {
            reveal_strlit("PE14");
        }
        report = report_with_code(report, self.ident().as_str());
        report = report_with_message(report, &self.message());
        let mut label = label_new(&path, start, end);
        label = label_with_color(label, a);
        label = label_with_message(label, &"expected end of line".to_owned());
        report = report_with_label(report, label);
        proof {
            assert(crate::report::builder_model(report).labels =~= pe14_report_model(
                self.token,
                a,
            ).labels);
            assert(crate::report::builder_model(report).helps =~= pe14_report_model(
                self.token,
                a,
            ).helps);
            assert(crate::report::builder_model(report) == pe14_report_model(self.token, a));
        }
        write_report(&report_finish(report), sources)
    }

    /// The structured CI record, anchored at the offending token.
    pub fn ci_generate(&self) -> (r: Vec<Annotation>)
        ensures
            r@.len() == 1,
            r@[0]@ == crate::code::spec_annotation(
                AnnotationLevel::Error,
                self.token.position.spec_path(),
                self.token.position,
                "unexpected tokens after include"@,
            ),
    {
        let mut v: Vec<Annotation> = Vec::new();
        v.push(
            make_annotation(
                AnnotationLevel::Error,
                self.token.position().path().as_str().to_owned(),
                self.token.position(),
                self.message(),
            ),
        );
        v
    }

    /// The editor-protocol diagnostic.
    pub fn generate_lsp(&self) -> (r: Option<(WorkspacePath, EditorDiagnostic)>)
        ensures
            r matches Some(d) && d.0.spec_path() == self.token.position.spec_path()
                && d.1.start == self.token.position.start && d.1.end == self.token.position.end
                && d.1.message@ == pe14_label_message(self.token) && d.1.error,
    {
        Some(
            (
                self.token.position().path().clone(),
                EditorDiagnostic {
                    path: self.token.position().path().clone(),
                    start: self.token.position().start(),
                    end: self.token.position().end(),
                    message: self.label_message(),
                    error: true,
                },
            ),
        )
    }
}

impl Code for IncludeUnexpectedSuffix {
    fn ident(&self) -> String {
        self.ident()
    }

    fn message(&self) -> String {
        self.message()
    }

    fn label_message(&self) -> String {
        self.label_message()
    }

    fn help(&self) -> Option<String> {
        self.help()
    }

    fn level(&self) -> AnnotationLevel {
        AnnotationLevel::Error
    }
}

} // verus!
