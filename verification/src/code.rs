//! The diagnostic contract every code implements, and the structured
//! annotation record the CI sink consumes.

use vstd::prelude::*;
use crate::position::{LineCol, Position, WorkspacePath};

verus! {

/// Severity of an annotation; fixed per diagnostic kind.
#[derive(Clone, Copy, PartialEq, Eq, Structural, Debug)]
pub enum AnnotationLevel {
    Notice,
    Warning,
    Error,
}

/// The machine-readable form of a diagnostic, in original-source
/// coordinates.
pub struct Annotation {
    pub level: AnnotationLevel,
    pub path: String,
    pub start_line: usize,
    pub start_col: usize,
    pub end_line: usize,
    pub end_col: usize,
    pub message: String,
}

/// What an annotation holds, as plain values.
pub ghost struct AnnotationModel {
    pub level: AnnotationLevel,
    pub path: Seq<char>,
    pub start_line: usize,
    pub start_col: usize,
    pub end_line: usize,
    pub end_col: usize,
    pub message: Seq<char>,
}

impl View for Annotation {
    type V = AnnotationModel;

    open spec fn view(&self) -> AnnotationModel {
        AnnotationModel {
            level: self.level,
            path: self.path@,
            start_line: self.start_line,
            start_col: self.start_col,
            end_line: self.end_line,
            end_col: self.end_col,
            message: self.message@,
        }
    }
}

/// What an annotation anchored at `pos` holds.
pub open spec fn spec_annotation(
    level: AnnotationLevel,
    path: Seq<char>,
    pos: Position,
    message: Seq<char>,
) -> AnnotationModel {
    AnnotationModel {
        level,
        path,
        start_line: pos.start.line,
        start_col: pos.start.col,
        end_line: pos.end.line,
        end_col: pos.end.col,
        message,
    }
}

/// Builds the structured record for the CI sink, anchored at an
/// original-source position.
pub fn make_annotation(
    level: AnnotationLevel,
    path: String,
    pos: &Position,
    message: String,
) -> (r: Annotation)
    ensures
        r@ == spec_annotation(level, path@, *pos, message@),
{
    Annotation {
        level,
        path,
        start_line: pos.start().line,
        start_col: pos.start().col,
        end_line: pos.end().line,
        end_col: pos.end().col,
        message,
    }
}

/// The editor-protocol form of a diagnostic; omitted entirely when no
/// resolvable file path exists.
pub struct EditorDiagnostic {
    pub path: WorkspacePath,
    pub start: LineCol,
    pub end: LineCol,
    pub message: String,
    pub error: bool,
}

/// The capability contract every diagnostic kind implements: a stable short
/// identifier, human messages, optional actionable help, and a fixed
/// severity.
pub trait Code {
    fn ident(&self) -> String;

    fn message(&self) -> String;

    fn label_message(&self) -> String;

    fn help(&self) -> Option<String>;

    fn level(&self) -> AnnotationLevel;
}

} // verus!
