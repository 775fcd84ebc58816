//! The terminal rendering sink: colored reports built and written through
//! the ariadne crate. Every executable item here is a thin trusted wrapper
//! around one ariadne call; what a report under construction holds is named
//! by ghost models (`label_model`, `builder_model`, `report_model`), so the
//! verified diagnostic code can pin exactly what it hands the renderer.

use vstd::prelude::*;
use ariadne::Fmt;

verus! {

#[verifier::external_type_specification]
#[verifier::external_body]
pub struct ExColor(ariadne::Color);

#[verifier::external_type_specification]
#[verifier::external_body]
pub struct ExColorGenerator(ariadne::ColorGenerator);

#[verifier::external_type_specification]
#[verifier::external_body]
#[verifier::reject_recursive_types(S)]
pub struct ExLabel<S>(ariadne::Label<S>);

/// The span type the reports use: a path and a character range in it.
pub type ReportSpan = (String, core::ops::Range<usize>);

/// An ariadne report under construction. Verus refuses the builder type's
/// declaration (its `Span` bound), so an opaque carrier holds it.
#[verifier::external_body]
pub struct TermReportBuilder {
    inner: ariadne::ReportBuilder<'static, ReportSpan>,
}

/// A finished ariadne report, held opaquely for the same reason.
#[verifier::external_body]
pub struct TermReport {
    inner: ariadne::Report<'static, ReportSpan>,
}

/// What a label holds: its span, and the message and color given to it. The
/// color is carried as the opaque color value itself.
pub ghost struct LabelModel {
    pub path: Seq<char>,
    pub start: usize,
    pub end: usize,
    pub message: Option<Seq<char>>,
    pub color: Option<ariadne::Color>,
}

/// What a report under construction holds: its kind, primary span, code,
/// message, labels in the order given, and help lines in the order given.
pub ghost struct ReportModel {
    pub error: bool,
    pub path: Seq<char>,
    pub start: usize,
    pub end: usize,
    pub code: Option<Seq<char>>,
    pub message: Option<Seq<char>>,
    pub labels: Seq<LabelModel>,
    pub helps: Seq<Seq<char>>,
}

/// What an ariadne label holds.
pub uninterp spec fn label_model(l: ariadne::Label<ReportSpan>) -> LabelModel;

/// What an ariadne report builder holds.
pub uninterp spec fn builder_model(b: TermReportBuilder) -> ReportModel;

/// What a finished ariadne report holds.
pub uninterp spec fn report_model(r: TermReport) -> ReportModel;

/// Whether `text` is something ariadne's renderer can write for the report
/// over the given source texts. The report's content is a function of the
/// model, but whether color escape codes are emitted is gated on a
/// process-global switch of the coloring crate, so the exact bytes are not:
/// this relation holds of every outcome.
pub uninterp spec fn is_rendering(
    m: ReportModel,
    srcs: Seq<(Seq<char>, Seq<char>)>,
    text: Seq<char>,
) -> bool;

/// The escape codes written before a text to color it: a function of the
/// color alone.
pub uninterp spec fn color_on_prefix(c: ariadne::Color) -> Seq<char>;

/// The escape codes written after a colored text: a function of the color
/// alone.
pub uninterp spec fn color_on_suffix(c: ariadne::Color) -> Seq<char>;

/// What coloring a text can yield: the text as it stands when the process's
/// color switch is off, else the text wrapped in the color's escape codes.
pub open spec fn colored_as(s: Seq<char>, c: ariadne::Color, r: Seq<char>) -> bool {
    r == s || r == color_on_prefix(c) + s + color_on_suffix(c)
}

/// The source list as the renderer sees it.
pub open spec fn spec_sources(srcs: Seq<(String, String)>) -> Seq<(Seq<char>, Seq<char>)> {
    srcs.map_values(|p: (String, String)| (p.0@, p.1@))
}

/// Relies on ariadne's `ColorGenerator::new`.
#[verifier::external_body]
pub fn color_generator() -> ariadne::ColorGenerator {
    ariadne::ColorGenerator::new()
}

/// Relies on ariadne's `ColorGenerator::next`: hands out a distinct color.
#[verifier::external_body]
pub fn next_color(g: &mut ariadne::ColorGenerator) -> ariadne::Color {
    g.next()
}

/// Relies on ariadne's `Color::Yellow` constant.
#[verifier::external_body]
pub fn color_yellow() -> ariadne::Color {
    ariadne::Color::Yellow
}

/// Relies on ariadne's `Color::Fixed` 256-color constant.
#[verifier::external_body]
pub fn color_fixed(n: u8) -> ariadne::Color {
    ariadne::Color::Fixed(n)
}

/// Relies on ariadne's `Fmt::fg`: returns the text as it stands when the
/// coloring crate's process-global switch has colors off, else the same
/// text wrapped in the color's fixed escape codes.
#[verifier::external_body]
pub fn colored(s: &str, c: ariadne::Color) -> (r: String)
    ensures
        r@ == s@ || r@ == color_on_prefix(c) + s@ + color_on_suffix(c),
{
    format!("{}", s.fg(c))
}

/// Relies on ariadne's `Report::build` with `ReportKind::Error`: a plain
/// constructor holding nothing else yet.
#[verifier::external_body]
pub fn build_error_report(path: &String, start: usize, end: usize) -> (r: TermReportBuilder)
    ensures
        builder_model(r) == (ReportModel {
            error: true,
            path: path@,
            start,
            end,
            code: None,
            message: None,
            labels: Seq::empty(),
            helps: Seq::empty(),
        }),
{
    TermReportBuilder { inner: ariadne::Report::build(ariadne::ReportKind::Error, (path.clone(), start..end)) }
}

/// Relies on ariadne's `Report::build` with `ReportKind::Warning`.
#[verifier::external_body]
pub fn build_warning_report(path: &String, start: usize, end: usize) -> (r: TermReportBuilder)
    ensures
        builder_model(r) == (ReportModel {
            error: false,
            path: path@,
            start,
            end,
            code: None,
            message: None,
            labels: Seq::empty(),
            helps: Seq::empty(),
        }),
{
    TermReportBuilder { inner: ariadne::Report::build(ariadne::ReportKind::Warning, (path.clone(), start..end)) }
}

/// Relies on ariadne's `ReportBuilder::with_code`: stores the code rendered
/// at width two, which for a code of at least two characters is the code
/// itself; sets nothing else.
#[verifier::external_body]
pub fn report_with_code(b: TermReportBuilder, code: &str) -> (r: TermReportBuilder)
    requires
        code@.len() >= 2,
    ensures
        builder_model(r) == (ReportModel { code: Some(code@), ..builder_model(b) }),
{
    TermReportBuilder { inner: b.inner.with_code(code) }
}

/// Relies on ariadne's `ReportBuilder::with_message`: sets the message,
/// keeps the rest.
#[verifier::external_body]
pub fn report_with_message(b: TermReportBuilder, msg: &String) -> (r: TermReportBuilder)
    ensures
        builder_model(r) == (ReportModel { message: Some(msg@), ..builder_model(b) }),
{
    TermReportBuilder { inner: b.inner.with_message(msg) }
}

/// Relies on ariadne's `ReportBuilder::with_label`: appends the label,
/// keeps the rest.
#[verifier::external_body]
pub fn report_with_label(b: TermReportBuilder, l: ariadne::Label<ReportSpan>) -> (r:
    TermReportBuilder)
    ensures
        builder_model(r) == (ReportModel {
            labels: builder_model(b).labels.push(label_model(l)),
            ..builder_model(b)
        }),
{
    TermReportBuilder { inner: b.inner.with_label(l) }
}

/// Relies on ariadne's `ReportBuilder::with_help`: appends the help line,
/// keeps the rest.
#[verifier::external_body]
pub fn report_with_help(b: TermReportBuilder, help: &String) -> (r: TermReportBuilder)
    ensures
        builder_model(r) == (ReportModel {
            helps: builder_model(b).helps.push(help@),
            ..builder_model(b)
        }),
{
    TermReportBuilder { inner: b.inner.with_help(help) }
}

/// Relies on ariadne's `ReportBuilder::finish`: keeps what was built.
#[verifier::external_body]
pub fn report_finish(b: TermReportBuilder) -> (r: TermReport)
    ensures
        report_model(r) == builder_model(b),
{
    TermReport { inner: b.inner.finish() }
}

/// Relies on ariadne's `Label::new`, which refuses a backwards span.
#[verifier::external_body]
pub fn label_new(path: &String, start: usize, end: usize) -> (r: ariadne::Label<ReportSpan>)
    requires
        start <= end,
    ensures
        label_model(r) == (LabelModel { path: path@, start, end, message: None, color: None }),
{
    ariadne::Label::new((path.clone(), start..end))
}

/// Relies on ariadne's `Label::with_message`: sets the message, keeps the
/// rest.
#[verifier::external_body]
pub fn label_with_message(l: ariadne::Label<ReportSpan>, msg: &String) -> (r: ariadne::Label<
    ReportSpan,
>)
    ensures
        label_model(r) == (LabelModel { message: Some(msg@), ..label_model(l) }),
{
    l.with_message(msg)
}

/// Relies on ariadne's `Label::with_color`: sets the color, keeps the rest.
#[verifier::external_body]
pub fn label_with_color(l: ariadne::Label<ReportSpan>, c: ariadne::Color) -> (r: ariadne::Label<
    ReportSpan,
>)
    ensures
        label_model(r) == (LabelModel { color: Some(c), ..label_model(l) }),
{
    l.with_color(c)
}

/// Relies on ariadne's `sources` and `Report::write_for_stdout`: renders the
/// report into a buffer, quoting the given source texts. With character
/// indices, labels whose offsets lie outside a source and labels naming an
/// unregistered source are skipped (the latter with a note on the standard
/// error stream); an io error comes back as `None`. What is written is
/// drawn from the report and the sources alone, coloring aside, so every
/// successful outcome satisfies `is_rendering` of the report's model.
#[verifier::external_body]
pub fn write_report(r: &TermReport, srcs: &Vec<(String, String)>) -> (res: Option<String>)
    ensures
        res matches Some(s) ==> is_rendering(report_model(*r), spec_sources(srcs@), s@),
{
    let mut out: Vec<u8> = Vec::new();
    match r.inner.write_for_stdout(ariadne::sources(srcs.clone()), &mut out) {
        Ok(()) => String::from_utf8(out).ok(),
        Err(_) => None,
    }
}

} // verus!
