//! A config file is named with an invalid case.

use vstd::prelude::*;
use crate::code::{make_annotation, Annotation, AnnotationLevel, Code};
use crate::position::{spec_filename, LineCol, Position, WorkspacePath};
use crate::report::{color_fixed, color_yellow, colored, colored_as};
use crate::strings::{lower_seq, to_lower};

verus! {

/// A config file whose name is not all lower case.
pub struct InvalidConfigCase {
    pub path: WorkspacePath,
}

/// The message: the file name in backticks.
pub open spec fn pw2_message(path: Seq<char>) -> Seq<char> {
    "`"@ + spec_filename(path) + "` is not a valid case for a config"@
}

/// The help: the whole path, lower-cased.
pub open spec fn pw2_help(path: Seq<char>) -> Seq<char> {
    "Rename to `"@ + lower_seq(path) + "`"@
}

/// The whole rendered warning, given how the tag and the help marker came
/// out of coloring: tag, message, then the help line.
pub open spec fn pw2_report_text(path: Seq<char>, tagx: Seq<char>, helpx: Seq<char>) -> Seq<char> {
    tagx + " "@ + pw2_message(path) + "\n      "@ + helpx + ": "@ + pw2_help(path)
}

impl InvalidConfigCase {
    pub fn new(path: WorkspacePath) -> (r: Self)
        ensures
            r.path == path,
    {
        InvalidConfigCase { path }
    }

    pub fn ident(&self) -> (r: String)
        ensures
            r@ == "PW2"@,
    {
        "PW2".to_owned()
    }

    pub fn message(&self) -> (r: String)
        ensures
            r@ == pw2_message(self.path.spec_path()),
    {
        let mut m: String = "`".to_owned();
        m.append(self.path.filename().as_str());
        m.append("` is not a valid case for a config");
        m
    }

    pub fn label_message(&self) -> (r: String)
        ensures
            r@ == pw2_message(self.path.spec_path()),
    {
        self.message()
    }

    /// A concrete suggested edit: the lower-cased path.
    pub fn help(&self) -> (r: Option<String>)
        ensures
            r matches Some(h) && h@ == pw2_help(self.path.spec_path()),
    {
        let mut h: String = "Rename to `".to_owned();
        h.append(to_lower(self.path.as_str()).as_str());
        h.append("`");
        Some(h)
    }

    /// The colored two-line warning; this code has no span to quote, so the
    /// report never fails: the tag and the message, then the help line, the
    /// tag and the help marker plain or wrapped in their colors' escape
    /// codes.
    pub fn report_generate(&self) -> (r: Option<String>)
        ensures
            r matches Some(s) && exists|
                tc: ariadne::Color,
                hc: ariadne::Color,
                tagx: Seq<char>,
                helpx: Seq<char>,
            |
                colored_as("["@ + "PW2"@ + "] Warning:"@, tc, tagx) && colored_as(
                    "Help"@,
                    hc,
                    helpx,
                ) && s@ == pw2_report_text(self.path.spec_path(), tagx, helpx),
    {
        let tag_color = color_yellow();
        let help_color = color_fixed(115);
        let mut tag: String = "[".to_owned();
        tag.append(self.ident().as_str());
        tag.append("] Warning:");
        let colored_tag = colored(tag.as_str(), tag_color);
        let colored_help_marker = colored("Help", help_color);
        let mut out = colored_tag.clone();
        out.append(" ");
        out.append(self.message().as_str());
        out.append("\n      ");
        out.append(colored_help_marker.as_str());
        out.append(": ");
        let help = match self.help() {
            Some(h) => h,
            None => vstd::pervasive::unreached(),
        };
        out.append(help.as_str());
        proof {
            assert(colored_as("["@ + "PW2"@ + "] Warning:"@, tag_color, colored_tag@));
            assert(colored_as("Help"@, help_color, colored_help_marker@));
            assert(out@ == pw2_report_text(
                self.path.spec_path(),
                colored_tag@,
                colored_help_marker@,
            ));
        }
        Some(out)
    }

    /// The structured CI record; the whole file is the subject, so it is
    /// anchored at the start of the file.
    pub fn ci_generate(&self) -> (r: Vec<Annotation>)
        ensures
            r@.len() == 1,
            r@[0].level == AnnotationLevel::Warning,
            r@[0].path@ == self.path.spec_path(),
            r@[0].start_line == 0 && r@[0].start_col == 0 && r@[0].end_line == 0 && r@[0].end_col
                == 0,
            r@[0].message@ == pw2_message(self.path.spec_path()),
    {
        let zero = LineCol::new(0, 0, 0);
        let pos = Position::new(zero, zero, self.path.clone());
        let mut v: Vec<Annotation> = Vec::new();
        v.push(
            make_annotation(
                AnnotationLevel::Warning,
                self.path.as_str().to_owned(),
                &pos,
                self.message(),
            ),
        );
        v
    }
}

impl Code for InvalidConfigCase {
    fn ident(&self) -> String {
        self.ident()
    }

    fn message(&self) -> String {
        self.message()
    }

    fn label_message(&self) -> String {
        self.label_message()
    }

    fn help(&self) -> Option<String> {
        self.help()
    }

    fn level(&self) -> AnnotationLevel {
        AnnotationLevel::Warning
    }
}

} // verus!
