//! Taking a value out of a JSON response with a JSON path. Reading JSON and
//! JSON paths is the work of `serde_json` and `serde_json_path`; what is
//! said of them here is believed, not proved.

use crate::text::chars_of;
use vstd::prelude::*;

verus! {

/// `serde_json::Value`, a JSON document or a node of one. Nothing is said of
/// what is inside.
#[verifier::external_type_specification]
#[verifier::external_body]
pub struct ExJsonValue(serde_json::Value);

/// `serde_json::Error`, why a text is no JSON.
#[verifier::external_type_specification]
#[verifier::external_body]
pub struct ExJsonError(serde_json::Error);

/// `serde_json_path::JsonPath`, a parsed JSON path. Nothing is said of what
/// is inside.
#[verifier::external_type_specification]
#[verifier::external_body]
pub struct ExJsonPath(serde_json_path::JsonPath);

/// `serde_json_path::ParseError`, why a text is no JSON path.
#[verifier::external_type_specification]
#[verifier::external_body]
pub struct ExPathParseError(serde_json_path::ParseError);

/// What `serde_json_path::JsonPath::parse` returns for a text: the path
/// that it reads, or its error where it rejects the text.
pub uninterp spec fn parsed_path(text: Seq<char>) -> Result<
    serde_json_path::JsonPath,
    serde_json_path::ParseError,
>;

/// What `serde_json::from_str` returns for a text: the document that it
/// reads, or its error where it rejects the text.
pub uninterp spec fn parsed_document(text: Seq<char>) -> Result<
    serde_json::Value,
    serde_json::Error,
>;

/// What `to_string` returns for an error of the path parser: where in the
/// text it stopped, and why.
pub uninterp spec fn path_error_text(error: serde_json_path::ParseError) -> Seq<char>;

/// What `to_string` returns for an error of the JSON parser: why it stopped,
/// and at which line and column where the error holds them.
pub uninterp spec fn document_error_text(error: serde_json::Error) -> Seq<char>;

/// The nodes of a document that `JsonPath::query` selects, in the order in
/// which it yields them.
pub uninterp spec fn matched_nodes(
    path: serde_json_path::JsonPath,
    document: serde_json::Value,
) -> Seq<serde_json::Value>;

/// What `Value::as_str` returns: the text of a JSON string, `None` for a
/// value of any other kind.
pub uninterp spec fn string_content(node: serde_json::Value) -> Option<Seq<char>>;

/// What `to_string` returns for a value: its JSON text without spaces or line
/// breaks between the tokens.
pub uninterp spec fn compact_text(node: serde_json::Value) -> Seq<char>;

/// Whether a text ends inside a `\u` escape: in `\u`, `\uD` or `\ud`. No
/// JSON path ends like that: an escape stands in a quoted name, and a quoted
/// name ends with its quote.
pub open spec fn ends_in_escape(text: Seq<char>) -> bool {
    let n = text.len() as int;
    ||| n >= 2 && text[n - 2] == '\\' && text[n - 1] == 'u'
    ||| n >= 3 && text[n - 3] == '\\' && text[n - 2] == 'u' && (text[n - 1] == 'D' || text[n - 1]
        == 'd')
}

/// `serde_json_path::JsonPath::parse`. The path read depends on the text
/// alone; nothing is said of which texts are paths. A text that ends inside a
/// `\u` escape is left out: where the text of a quoted name runs out at the
/// hexadecimal digits of an escape, the parser asks for more input, and
/// `parse` panics on that answer.
#[verifier::external_body]
fn parse_path(text: &str) -> (r: Result<serde_json_path::JsonPath, serde_json_path::ParseError>)
    requires
        !ends_in_escape(text@),
    ensures
        r == parsed_path(text@),
{
    serde_json_path::JsonPath::parse(text)
}

/// `serde_json::from_str` at the type `serde_json::Value`. The document read
/// depends on the text alone; nothing is said of which texts are JSON.
#[verifier::external_body]
fn parse_document(text: &str) -> (r: Result<serde_json::Value, serde_json::Error>)
    ensures
        r == parsed_document(text@),
{
    serde_json::from_str(text)
}

/// `to_string` on a `serde_json_path::ParseError`, which writes the position
/// and the message that the error holds.
#[verifier::external_body]
fn path_reason(error: &serde_json_path::ParseError) -> (text: String)
    ensures
        text@ == path_error_text(*error),
{
    error.to_string()
}

/// `to_string` on a `serde_json::Error`, which writes what the error says
/// and, where the error holds them, its line and column.
#[verifier::external_body]
fn document_reason(error: &serde_json::Error) -> (text: String)
    ensures
        text@ == document_error_text(*error),
{
    error.to_string()
}

/// `JsonPath::query`, with the nodes handed out by `NodeList::all`: references
/// into the document, in the order of the node list.
#[verifier::external_body]
fn query_nodes<'a>(path: &serde_json_path::JsonPath, document: &'a serde_json::Value) -> (nodes:
    Vec<&'a serde_json::Value>)
    ensures
        nodes@.len() == matched_nodes(*path, *document).len(),
        forall|i: int|
            0 <= i < nodes@.len() ==> *(#[trigger] nodes@[i]) == matched_nodes(*path, *document)[i],
{
    path.query(document).all()
}

/// `Value::as_str`, with the text copied.
#[verifier::external_body]
fn node_string(node: &serde_json::Value) -> (text: Option<String>)
    ensures
        match text {
            Some(s) => string_content(*node) == Some(s@),
            None => string_content(*node) is None,
        },
{
    node.as_str().map(str::to_owned)
}

/// `to_string` on a `serde_json::Value`, which writes the value as compact
/// JSON.
#[verifier::external_body]
fn node_compact(node: &serde_json::Value) -> (text: String)
    ensures
        text@ == compact_text(*node),
{
    node.to_string()
}

/// Why no value could be taken out of a response body.
#[derive(Clone, Debug, PartialEq, Eq)]
pub enum ExtractError {
    /// The path is not a JSON path; `reason` says why.
    Path { reason: String },
    /// The body is not JSON; `reason` says why.
    Document { reason: String },
    /// The path selects this many nodes, not one.
    Count(usize),
}

/// An `ExtractError` as text.
pub enum ExtractFailure {
    Path(Seq<char>),
    Document(Seq<char>),
    Count(usize),
}

impl View for ExtractError {
    type V = ExtractFailure;

    open spec fn view(&self) -> ExtractFailure {
        match *self {
            ExtractError::Path { reason } => ExtractFailure::Path(reason@),
            ExtractError::Document { reason } => ExtractFailure::Document(reason@),
            ExtractError::Count(n) => ExtractFailure::Count(n),
        }
    }
}

/// What is said of a path that ends inside an escape.
pub open spec fn open_escape_reason() -> Seq<char> {
    "the path ends inside a \\u escape"@
}

/// The text that stands for a node in a rendered template: the content of a
/// JSON string as it is, without quotes; the compact JSON text of a value of
/// any other kind.
pub open spec fn node_value(node: serde_json::Value) -> Seq<char> {
    match string_content(node) {
        Some(text) => text,
        None => compact_text(node),
    }
}

/// The value of the one node selected, or the number of nodes where it is
/// not one.
pub open spec fn selected(nodes: Seq<serde_json::Value>) -> Result<Seq<char>, ExtractFailure> {
    if nodes.len() == 1 {
        Ok(node_value(nodes[0]))
    } else {
        Err(ExtractFailure::Count(nodes.len() as usize))
    }
}

/// The value that a path selects in a response body. The path is read first,
/// then the body, then the path is applied. A text that ends inside a `\u`
/// escape is no path; of any other text that is none, and of a body that is
/// no JSON, the parser's own words say why.
pub open spec fn extracted(path: Seq<char>, body: Seq<char>) -> Result<Seq<char>, ExtractFailure> {
    if ends_in_escape(path) {
        Err(ExtractFailure::Path(open_escape_reason()))
    } else {
        match parsed_path(path) {
            Err(error) => Err(ExtractFailure::Path(path_error_text(error))),
            Ok(p) => match parsed_document(body) {
                Err(error) => Err(ExtractFailure::Document(document_error_text(error))),
                Ok(d) => selected(matched_nodes(p, d)),
            },
        }
    }
}

/// Whether a text ends inside a `\u` escape.
pub fn has_open_escape(text: &str) -> (open: bool)
    ensures
        open == ends_in_escape(text@),
{
    let chars = chars_of(text);
    let n = chars.len();
    if n >= 2 && chars[n - 2] == '\\' && chars[n - 1] == 'u' {
        true
    } else {
        n >= 3 && chars[n - 3] == '\\' && chars[n - 2] == 'u' && (chars[n - 1] == 'D' || chars[n
            - 1] == 'd')
    }
}

/// The nodes that a list of references points at.
pub open spec fn nodes_view(nodes: Seq<&serde_json::Value>) -> Seq<serde_json::Value> {
    nodes.map_values(|node: &serde_json::Value| *node)
}

/// The text that stands for a node.
pub fn value_of_node(node: &serde_json::Value) -> (text: String)
    ensures
        text@ == node_value(*node),
{
    match node_string(node) {
        Some(text) => text,
        None => node_compact(node),
    }
}

/// Takes the value out of a list of selected nodes: there has to be exactly
/// one.
pub fn select_value(nodes: &Vec<&serde_json::Value>) -> (r: Result<String, ExtractError>)
    ensures
        match r {
            Ok(text) => selected(nodes_view(nodes@)) == Ok::<Seq<char>, ExtractFailure>(text@),
            Err(e) => selected(nodes_view(nodes@)) == Err::<Seq<char>, ExtractFailure>(e@),
        },
{
    if nodes.len() == 1 {
        Ok(value_of_node(nodes[0]))
    } else {
        Err(ExtractError::Count(nodes.len()))
    }
}

/// Takes out of a response body the value that a path selects.
pub fn extract(path: &str, body: &str) -> (r: Result<String, ExtractError>)
    ensures
        match r {
            Ok(text) => extracted(path@, body@) == Ok::<Seq<char>, ExtractFailure>(text@),
            Err(e) => extracted(path@, body@) == Err::<Seq<char>, ExtractFailure>(e@),
        },
{
    if has_open_escape(path) {
        return Err(ExtractError::Path { reason: "the path ends inside a \\u escape".to_owned() });
    }
    let parsed = match parse_path(path) {
        Ok(p) => p,
        Err(error) => {
            return Err(ExtractError::Path { reason: path_reason(&error) });
        },
    };
    let document = match parse_document(body) {
        Ok(d) => d,
        Err(error) => {
            return Err(ExtractError::Document { reason: document_reason(&error) });
        },
    };
    let nodes = query_nodes(&parsed, &document);
    assert(nodes_view(nodes@) =~= matched_nodes(parsed, document));
    select_value(&nodes)
}

/// When a path gives no value. A text that is no path fails as such,
/// whatever the body. Under a path, a body that is no JSON fails as such.
/// Else the path selects some number of nodes: one gives a value, none or
/// several fail with their number.
pub proof fn lemma_extraction_outcomes(path: Seq<char>, body: Seq<char>)
    ensures
        ends_in_escape(path) || parsed_path(path) is Err ==> extracted(path, body) matches Err(
            ExtractFailure::Path(_),
        ),
        !ends_in_escape(path) && parsed_path(path) is Ok && parsed_document(body) is Err
            ==> extracted(path, body) matches Err(ExtractFailure::Document(_)),
        !ends_in_escape(path) && parsed_path(path) is Ok && parsed_document(body) is Ok ==> {
            let nodes = matched_nodes(parsed_path(path)->Ok_0, parsed_document(body)->Ok_0);
            &&& nodes.len() == 1 ==> extracted(path, body) == Ok::<Seq<char>, ExtractFailure>(
                node_value(nodes[0]),
            )
            &&& nodes.len() != 1 ==> extracted(path, body) == Err::<Seq<char>, ExtractFailure>(
                ExtractFailure::Count(nodes.len() as usize),
            )
        },
{
}

} // verus!
