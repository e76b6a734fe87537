//! Replies of the graph service: which message the service prints for a reply.

use vstd::prelude::*;

verus! {

/// The error type of `serde_json`.
#[verifier::external_type_specification]
#[verifier::external_body]
pub struct ExJsonError(serde_json::Error);

/// What a JSON document says of two members of its top-level object: `None` when
/// `serde_json` rejects the document (it is no JSON text, or it nests deeper than the
/// parser's recursion limit); else, for each member, `None` when it is absent (or the document
/// is no object), `Some(None)` when it is no string, and `Some(Some(t))` when it is the
/// string `t`.
pub uninterp spec fn json_member_texts(body: Seq<char>, first: Seq<char>, second: Seq<char>) -> Option<
    (Option<Option<Seq<char>>>, Option<Option<Seq<char>>>),
>;

/// A member of a JSON object as a mathematical value.
pub open spec fn member_view(member: Option<Option<String>>) -> Option<Option<Seq<char>>> {
    match member {
        None => None,
        Some(None) => Some(None),
        Some(Some(t)) => Some(Some(t@)),
    }
}

/// Parses `body` with `serde_json::from_str` into a `serde_json::Value`, and reads the members
/// `first` and `second` of it with `Value::get` and `Value::as_str`.
///
/// Claimed of serde_json: the outcome depends on the three texts alone (it is named
/// `json_member_texts`), and the parse fails exactly when that name gives `None`.
#[verifier::external_body]
fn json_members(body: &str, first: &str, second: &str) -> (members: Result<
    (Option<Option<String>>, Option<Option<String>>),
    serde_json::Error,
>)
    ensures
        match members {
            Ok((a, b)) => json_member_texts(body@, first@, second@) == Some((member_view(a), member_view(b))),
            Err(_) => json_member_texts(body@, first@, second@) is None,
        },
{
    let value: serde_json::Value = serde_json::from_str(body)?;
    let a = value.get(first).map(|v| v.as_str().map(|t| t.to_string()));
    let b = value.get(second).map(|v| v.as_str().map(|t| t.to_string()));
    Ok((a, b))
}

/// The message of a `serde_json` error, through its `Display` impl.
///
/// Nothing is claimed of the text.
#[verifier::external_body]
fn json_error_text(error: &serde_json::Error) -> (text: String) {
    error.to_string()
}

/// Why a reply of the graph service could not be read.
#[derive(Debug)]
pub enum GraphError {
    /// The body of a successful reply is no JSON text; the parser's message.
    InvalidJson(String),
}

/// What the service reports of a reply of the graph service.
#[derive(Debug)]
pub enum GraphReport {
    /// The reply's status is no success.
    ServerFailed,
    /// The reply names an error: its text, or `Desconocido` where it is no string.
    ReportedError(String),
    /// The reply names the path of the plot: its text, or `No disponible` where it is no string.
    PlotPath(String),
    /// The reply names neither.
    Silent,
}

/// A report as a mathematical value.
pub enum GraphReportView {
    ServerFailed,
    ReportedError(Seq<char>),
    PlotPath(Seq<char>),
    Silent,
}

impl View for GraphReport {
    type V = GraphReportView;

    open spec fn view(&self) -> GraphReportView {
        match self {
            GraphReport::ServerFailed => GraphReportView::ServerFailed,
            GraphReport::ReportedError(t) => GraphReportView::ReportedError(t@),
            GraphReport::PlotPath(t) => GraphReportView::PlotPath(t@),
            GraphReport::Silent => GraphReportView::Silent,
        }
    }
}

/// The report of a successful reply whose `error` and `plot_path` members are as given:
/// an `error` member wins over a `plot_path` member.
pub open spec fn report_of(error: Option<Option<Seq<char>>>, plot_path: Option<Option<Seq<char>>>) -> GraphReportView {
    match error {
        Some(Some(t)) => GraphReportView::ReportedError(t),
        Some(None) => GraphReportView::ReportedError("Desconocido"@),
        None => match plot_path {
            Some(Some(p)) => GraphReportView::PlotPath(p),
            Some(None) => GraphReportView::PlotPath("No disponible"@),
            None => GraphReportView::Silent,
        },
    }
}

/// Chooses the report of a successful reply from its `error` and `plot_path` members.
pub fn classify_graph_reply(error: Option<Option<String>>, plot_path: Option<Option<String>>) -> (report: GraphReport)
    ensures
        report@ == report_of(member_view(error), member_view(plot_path)),
{
    match error {
        Some(Some(t)) => GraphReport::ReportedError(t),
        Some(None) => GraphReport::ReportedError("Desconocido".to_string()),
        None => match plot_path {
            Some(Some(p)) => GraphReport::PlotPath(p),
            Some(None) => GraphReport::PlotPath("No disponible".to_string()),
            None => GraphReport::Silent,
        },
    }
}

/// The report on a reply of the graph service with the given success and body. The body is
/// read only when the status is a success, and then must be JSON text.
pub fn graph_report(success: bool, body: &str) -> (report: Result<GraphReport, GraphError>)
    ensures
        !success ==> (report matches Ok(r) && r@ == GraphReportView::ServerFailed),
        success ==> (report is Err <==> json_member_texts(body@, "error"@, "plot_path"@) is None),
        success ==> (report matches Ok(r) ==> (json_member_texts(body@, "error"@, "plot_path"@) matches Some(
            m,
        ) && r@ == report_of(m.0, m.1))),
{
    if !success {
        return Ok(GraphReport::ServerFailed);
    }
    match json_members(body, "error", "plot_path") {
        Ok((error, plot_path)) => Ok(classify_graph_reply(error, plot_path)),
        Err(e) => Err(GraphError::InvalidJson(json_error_text(&e))),
    }
}

/// Entry point kept for generating images locally: it does nothing and changes nothing;
/// the images come from the graph service.
pub fn get_img() {
}

/// An `error` member decides the report whatever the `plot_path` member says, and a text
/// member is reported unchanged; only members that are no string get the fixed texts.
pub proof fn lemma_error_member_wins(
    error: Option<Option<Seq<char>>>,
    plot_path: Option<Option<Seq<char>>>,
    text: Seq<char>,
)
    ensures
        error is Some ==> report_of(error, plot_path) == report_of(error, None),
        report_of(Some(Some(text)), plot_path) == GraphReportView::ReportedError(text),
        report_of(Some(None), plot_path) == GraphReportView::ReportedError("Desconocido"@),
        report_of(None, Some(Some(text))) == GraphReportView::PlotPath(text),
        report_of(None, Some(None)) == GraphReportView::PlotPath("No disponible"@),
        report_of(None, None) == GraphReportView::Silent,
{
}

} // verus!
