//! A class's parent is not present in the expanded config.

use vstd::prelude::*;
use crate::code::{make_annotation, Annotation, AnnotationLevel, Code};
use crate::config::Class;
use crate::processed::{spec_mapping, Mapping, Processed};
use crate::report::{
    build_error_report, color_generator, colored, colored_as, is_rendering, label_new,
    label_with_color, label_with_message, next_color, report_finish, report_with_code,
    report_with_help, report_with_label, report_with_message, write_report, LabelModel,
    ReportModel,
};

verus! {

/// A class was derived from a parent that is nowhere declared in the same
/// expanded unit.
pub struct MissingParent {
    pub class: Class,
}

/// The help: declare the parent as external.
pub open spec fn ce7_help(parent: Seq<char>) -> Seq<char> {
    "add `class "@ + parent + ";` to the config to declare it as external"@
}

/// What the terminal report is built from: an error anchored at the class
/// name's original column, one label at the parent's original span, and the
/// help holding the parent's name as coloring returned it (`mid`).
pub open spec fn ce7_report_model(
    name_map: Mapping,
    parent_map: Mapping,
    mid: Seq<char>,
    c: ariadne::Color,
) -> ReportModel {
    ReportModel {
        error: true,
        path: name_map.token.position.spec_path(),
        start: name_map.token.position.start.col,
        end: name_map.token.position.start.col,
        code: Some("CE7"@),
        message: Some("class's parent is not present"@),
        labels: seq![
            LabelModel {
                path: parent_map.token.position.spec_path(),
                start: parent_map.token.position.start.offset,
                end: parent_map.token.position.end.offset,
                message: Some("not present in config"@),
                color: Some(c),
            },
        ],
        helps: seq![
            "add `class "@ + mid + ";` to the config to declare it as external"@,
        ],
    }
}

impl MissingParent {
    pub fn new(class: Class) -> (r: Self)
        ensures
            r.class == class,
    {
        MissingParent { class }
    }

    pub fn ident(&self) -> (r: String)
        ensures
            r@ == "CE7"@,
    {
        "CE7".to_owned()
    }

    pub fn message(&self) -> (r: String)
        ensures
            r@ == "class's parent is not present"@,
    {
        "class's parent is not present".to_owned()
    }

    pub fn label_message(&self) -> (r: String)
        ensures
            r@ == "not present in config"@,
    {
        "not present in config".to_owned()
    }

    /// A concrete suggested edit, where the class has a parent.
    pub fn help(&self) -> (r: Option<String>)
        ensures
            match self.class.parent {
                Some(p) => r matches Some(h) && h@ == ce7_help(p.value@),
                None => r is None,
            },
    {
        match self.class.parent() {
            Some(parent) => {
                let mut h: String = "add `class ".to_owned();
                h.append(parent.as_str());
                h.append(";` to the config to declare it as external");
                Some(h)
            },
            None => None,
        }
    }

    /// The colored terminal report, anchored through the mapping at the
    /// parent's original, pre-expansion position. Yields nothing for a class
    /// without a parent, for spans the mapping does not know, or for a
    /// malformed original span.
    pub fn report_generate_processed(&self, processed: &Processed) -> (r: Option<String>)
        requires
            processed.wf(),
            self.class.parent is Some ==> self.class.name is Some,
        ensures
            self.class.parent is None ==> r is None,
            self.class.parent matches Some(p) ==> self.class.name matches Some(nm) ==> {
                let name_map = spec_mapping(processed.mappings@, nm.span_start as nat);
                let parent_map = spec_mapping(processed.mappings@, p.span_start as nat);
                match (name_map, parent_map) {
                    (Some(m), Some(pm)) => {
                        &&& pm.token.position.start.offset > pm.token.position.end.offset ==> r
                            is None
                        &&& pm.token.position.start.offset <= pm.token.position.end.offset ==> (r
                            matches Some(s) ==> exists|c: ariadne::Color, mid: Seq<char>|
                            colored_as(p.value@, c, mid) && is_rendering(
                                #[trigger] ce7_report_model(m, pm, mid, c),
                                processed.spec_texts(),
                                s@,
                            ))
                    },
                    _ => r is None,
                }
            },
    {
        let parent = match self.class.parent() {
            Some(p) => p,
            None => {
                return None;
            },
        };
        let name = match self.class.name() {
            Some(n) => n,
            None => vstd::pervasive::unreached(),
        };
        let map = match processed.mapping(name.span_start) {
            Some(m) => m,
            None => {
                return None;
            },
        };
        let parent_map = match processed.mapping(parent.span_start) {
            Some(m) => m,
            None => {
                return None;
            },
        };
        let parent_pos = parent_map.original();
        let (pstart, pend) = parent_pos.span();
        if pstart > pend {
            return None;
        }
        let anchor_path = map.original().path().as_str().to_owned();
        let col = map.original_column();
        let mut colors = color_generator();
        let a = next_color(&mut colors);
        let mut report = build_error_report(&anchor_path, col, col);
        proof {
            reveal_strlit("CE7");
        }
        report = report_with_code(report, self.ident().as_str());
        report = report_with_message(report, &self.message());
        let parent_path = parent_pos.path().as_str().to_owned();
        let mut label = label_new(&parent_path, pstart, pend);
        label = label_with_message(label, &self.label_message());
        label = label_with_color(label, a);
        report = report_with_label(report, label);
        let colored_parent = colored(parent.as_str(), a);
        let mut help: String = "add `class ".to_owned();
        help.append(colored_parent.as_str());
        help.append(";` to the config to declare it as external");
        report = report_with_help(report, &help);
        proof {
            assert(colored_as(parent.value@, a, colored_parent@));
            let target = ce7_report_model(*map, *parent_map, colored_parent@, a);
            assert(crate::report::builder_model(report).labels =~= target.labels);
            assert(crate::report::builder_model(report).helps =~= target.helps);
            assert(crate::report::builder_model(report) == target);
        }
        write_report(&report_finish(report), &processed.sources_list())
    }

    /// The structured CI record, anchored through the mapping at the
    /// parent's original, pre-expansion position and file.
    pub fn ci_generate_processed(&self, processed: &Processed) -> (r: Vec<Annotation>)
        requires
            processed.wf(),
            self.class.parent matches Some(p) && p.span_start < processed.total,
        ensures
            r@.len() == 1,
            self.class.parent matches Some(p) && (spec_mapping(
                processed.mappings@,
                p.span_start as nat,
            ) matches Some(m) && r@[0]@ == crate::code::spec_annotation(
                AnnotationLevel::Error,
                processed.sources@[m.source as int].0.spec_path(),
                m.token.position,
                "class's parent is not present"@,
            )),
    {
        let parent = match self.class.parent() {
            Some(p) => p,
            None => vstd::pervasive::unreached(),
        };
        let map = match processed.mapping(parent.span_start) {
            Some(m) => m,
            None => vstd::pervasive::unreached(),
        };
        proof {
            crate::processed::lemma_mapping_round_trip(processed, parent.span_start);
        }
        let source = match processed.source(map.source()) {
            Some(s) => s,
            None => vstd::pervasive::unreached(),
        };
        let mut v: Vec<Annotation> = Vec::new();
        v.push(
            make_annotation(
                AnnotationLevel::Error,
                source.0.as_str().to_owned(),
                map.original(),
                self.message(),
            ),
        );
        v
    }
}

impl Code for MissingParent {
    fn ident(&self) -> String {
        self.ident()
    }

    fn message(&self) -> String {
        self.message()
    }

    fn label_message(&self) -> String {
        self.label_message()
    }

    fn help(&self) -> Option<String> {
        self.help()
    }

    fn level(&self) -> AnnotationLevel {
        AnnotationLevel::Error
    }
}

} // verus!
