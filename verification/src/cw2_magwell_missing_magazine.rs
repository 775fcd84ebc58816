//! A magazine-well array lists a magazine missing from the magazine table.

use vstd::prelude::*;
use crate::code::{make_annotation, Annotation, AnnotationLevel, Code};
use crate::config::Ident;
use crate::processed::{spec_mapping, Mapping, Processed};
use crate::report::{
    build_warning_report, color_generator, colored, colored_as, is_rendering, label_new,
    label_with_color, label_with_message, next_color, report_finish, report_with_code,
    report_with_label, report_with_message, write_report, LabelModel, ReportModel,
};

verus! {

/// A magazine named in a magazine-well array was not found in the magazine
/// table: the array's identifier, the missing name, and the expanded-stream
/// span of the missing entry.
pub struct MagwellMissingMagazine {
    pub array: Ident,
    pub ident: String,
    pub span_start: usize,
    pub span_end: usize,
}

/// The label message: the missing name in backticks.
pub open spec fn cw2_label_message(name: Seq<char>) -> Seq<char> {
    "no matching magazine was found: `"@ + name + "`"@
}

/// What the terminal report is built from: a warning anchored at the
/// array's original file and the entry's original column, with one label
/// spanning from the array's original start to the missing entry's original
/// end, naming the missing magazine as coloring returned it (`mid`).
pub open spec fn cw2_report_model(
    array_map: Mapping,
    start_map: Mapping,
    end_map: Mapping,
    mid: Seq<char>,
    c: ariadne::Color,
) -> ReportModel {
    ReportModel {
        error: false,
        path: array_map.token.position.spec_path(),
        start: start_map.token.position.start.col,
        end: start_map.token.position.start.col,
        code: Some("CW2"@),
        message: Some("magazine defined in CfgMagazineWells was not found in CfgMagazines"@),
        labels: seq![
            LabelModel {
                path: array_map.token.position.spec_path(),
                start: array_map.token.position.start.offset,
                end: end_map.token.position.end.offset,
                message: Some("no matching magazine was found: `"@ + mid + "`"@),
                color: Some(c),
            },
        ],
        helps: Seq::empty(),
    }
}

impl MagwellMissingMagazine {
    pub fn new(array: Ident, ident: String, span_start: usize, span_end: usize) -> (r: Self)
        ensures
            r == (MagwellMissingMagazine { array, ident, span_start, span_end }),
    {
        MagwellMissingMagazine { array, ident, span_start, span_end }
    }

    pub fn ident(&self) -> (r: String)
        ensures
            r@ == "CW2"@,
    {
        "CW2".to_owned()
    }

    pub fn message(&self) -> (r: String)
        ensures
            r@ == "magazine defined in CfgMagazineWells was not found in CfgMagazines"@,
    {
        "magazine defined in CfgMagazineWells was not found in CfgMagazines".to_owned()
    }

    pub fn label_message(&self) -> (r: String)
        ensures
            r@ == cw2_label_message(self.ident@),
    {
        let mut m: String = "no matching magazine was found: `".to_owned();
        m.append(self.ident.as_str());
        m.append("`");
        m
    }

    pub fn help(&self) -> (r: Option<String>)
        ensures
            r is None,
    {
        None
    }

    /// The colored terminal report: a warning anchored at the array's
    /// original file, labelling the span from the array's original start
    /// token to the missing entry's original end token. Yields nothing for
    /// spans the mapping does not know or for a malformed original span.
    pub fn report_generate_processed(&self, processed: &Processed) -> (r: Option<String>)
        requires
            processed.wf(),
        ensures
            ({
                let array_map = spec_mapping(processed.mappings@, self.array.span_start as nat);
                let start_map = spec_mapping(processed.mappings@, self.span_start as nat);
                let end_map = spec_mapping(processed.mappings@, self.span_end as nat);
                match (array_map, start_map, end_map) {
                    (Some(am), Some(sm), Some(em)) => {
                        &&& am.token.position.start.offset > em.token.position.end.offset ==> r
                            is None
                        &&& am.token.position.start.offset <= em.token.position.end.offset ==> (r
                            matches Some(s) ==> exists|c: ariadne::Color, mid: Seq<char>|
                            colored_as(self.ident@, c, mid) && is_rendering(
                                #[trigger] cw2_report_model(am, sm, em, mid, c),
                                processed.spec_texts(),
                                s@,
                            ))
                    },
                    _ => r is None,
                }
            }),
    {
        let array_map = match processed.mapping(self.array.span_start) {
            Some(m) => m,
            None => {
                return None;
            },
        };
        let start_map = match processed.mapping(self.span_start) {
            Some(m) => m,
            None => {
                return None;
            },
        };
        let end_map = match processed.mapping(self.span_end) {
            Some(m) => m,
            None => {
                return None;
            },
        };
        let lstart = array_map.original().start().offset;
        let lend = end_map.original().end().offset;
        if lstart > lend {
            return None;
        }
        let anchor_path = array_map.original().path().as_str().to_owned();
        let col = start_map.original_column();
        let mut colors = color_generator();
        let color = next_color(&mut colors);
        let mut report = build_warning_report(&anchor_path, col, col);
        proof {
            reveal_strlit("CW2");
        }
        report = report_with_code(report, self.ident().as_str());
        report = report_with_message(report, &self.message());
        let colored_name = colored(self.ident.as_str(), color);
        let mut msg: String = "no matching magazine was found: `".to_owned();
        msg.append(colored_name.as_str());
        msg.append("`");
        let mut label = label_new(&anchor_path, lstart, lend);
        label = label_with_message(label, &msg);
        label = label_with_color(label, color);
        report = report_with_label(report, label);
        proof {
            assert(colored_as(self.ident@, color, colored_name@));
            let target = cw2_report_model(*array_map, *start_map, *end_map, colored_name@, color);
            assert(crate::report::builder_model(report).labels =~= target.labels);
            assert(crate::report::builder_model(report).helps =~= target.helps);
            assert(crate::report::builder_model(report) == target);
        }
        write_report(&report_finish(report), &processed.sources_list())
    }

    /// The structured CI record, anchored through the mapping at the missing
    /// entry's original position and file.
    pub fn ci_generate_processed(&self, processed: &Processed) -> (r: Vec<Annotation>)
        requires
            processed.wf(),
            self.span_start < processed.total,
        ensures
            r@.len() == 1,
            spec_mapping(processed.mappings@, self.span_start as nat) matches Some(m) && r@[0]@
                == crate::code::spec_annotation(
                AnnotationLevel::Warning,
                processed.sources@[m.source as int].0.spec_path(),
                m.token.position,
                "magazine defined in CfgMagazineWells was not found in CfgMagazines"@,
            ),
    {
        let map = match processed.mapping(self.span_start) {
            Some(m) => m,
            None => vstd::pervasive::unreached(),
        };
        proof {
            crate::processed::lemma_mapping_round_trip(processed, self.span_start);
        }
        let source = match processed.source(map.source()) {
            Some(s) => s,
            None => vstd::pervasive::unreached(),
        };
        let mut v: Vec<Annotation> = Vec::new();
        v.push(
            make_annotation(
                AnnotationLevel::Warning,
                source.0.as_str().to_owned(),
                map.original(),
                self.message(),
            ),
        );
        v
    }
}

impl Code for MagwellMissingMagazine {
    fn ident(&self) -> String {
        self.ident()
    }

    fn message(&self) -> String {
        self.message()
    }

    fn label_message(&self) -> String {
        self.label_message()
    }

    fn help(&self) -> Option<String> {
        self.help()
    }

    fn level(&self) -> AnnotationLevel {
        AnnotationLevel::Warning
    }
}

} // verus!
