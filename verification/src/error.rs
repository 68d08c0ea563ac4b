//! The two ways in which a node fails, and the text that reports a failure
//! with its causes.

use vstd::prelude::*;
use vstd::string::StringExecFns;

verus! {

/// `std::io::Error`, the reason why the transport failed. It is carried
/// along and never looked into.
#[verifier::external_type_specification]
#[verifier::external_body]
pub struct ExIoError(std::io::Error);

/// Why a node stops before its input has ended.
#[derive(Debug)]
pub enum NodeError {
    /// The transport could not be read or written.
    Io(std::io::Error),
    /// A line is no message of the kind that the node expects.
    Json(serde_json::Error),
}

impl NodeError {
    /// A short description of the kind of failure.
    pub fn message(&self) -> (r: String)
        ensures
            r@ == (match self {
                NodeError::Io(_) => "IO error"@,
                NodeError::Json(_) => "Serialization/Deserialization error"@,
            }),
    {
        match self {
            NodeError::Io(_) => "IO error".to_owned(),
            NodeError::Json(_) => "Serialization/Deserialization error".to_owned(),
        }
    }
}

impl From<std::io::Error> for NodeError {
    fn from(e: std::io::Error) -> (r: Self) {
        NodeError::Io(e)
    }
}

impl vstd::std_specs::convert::FromSpecImpl<std::io::Error> for NodeError {
    open spec fn obeys_from_spec() -> bool {
        true
    }

    open spec fn from_spec(e: std::io::Error) -> Self {
        NodeError::Io(e)
    }
}

impl From<serde_json::Error> for NodeError {
    fn from(e: serde_json::Error) -> (r: Self) {
        NodeError::Json(e)
    }
}

impl vstd::std_specs::convert::FromSpecImpl<serde_json::Error> for NodeError {
    open spec fn obeys_from_spec() -> bool {
        true
    }

    open spec fn from_spec(e: serde_json::Error) -> Self {
        NodeError::Json(e)
    }
}

/// The head of a report: what the failure stems from, and an empty line.
pub open spec fn head_text(source: Seq<char>) -> Seq<char> {
    source + "\n\n"@
}

/// The lines that name one cause: the words `Caused by:`, and the cause on a
/// line of its own behind a tab.
pub open spec fn cause_text(cause: Seq<char>) -> Seq<char> {
    "Caused by:\n\t"@ + cause + "\n"@
}

/// The lines that name the first `n` causes of a failure, one after the
/// other.
pub open spec fn causes_text(causes: Seq<Seq<char>>, n: int) -> Seq<char>
    decreases n,
{
    if n <= 0 {
        Seq::empty()
    } else {
        causes_text(causes, n - 1) + cause_text(causes[n - 1])
    }
}

/// The report of a failure: its head, and then its causes from the nearest
/// to the farthest.
pub open spec fn chain_text(source: Seq<char>, causes: Seq<Seq<char>>) -> Seq<char> {
    head_text(source) + causes_text(causes, causes.len() as int)
}

/// The texts of a list of strings.
pub open spec fn texts(items: Seq<String>) -> Seq<Seq<char>> {
    items.map_values(|s: String| s@)
}

/// Writes the head of a report. `source` describes what the failure stems
/// from.
pub fn chain_head(source: &str) -> (r: String)
    ensures
        r@ == head_text(source@),
{
    let mut out = source.to_owned();
    out.append("\n\n");
    out
}

/// Writes the lines that name one cause.
pub fn chain_cause(cause: &str) -> (r: String)
    ensures
        r@ == cause_text(cause@),
{
    let mut out = "Caused by:\n\t".to_owned();
    out.append(cause);
    out.append("\n");
    out
}

/// Writes the report of a failure. `source` describes what the failure stems
/// from, and `causes` holds the chain of causes behind it, the nearest first.
pub fn error_chain_fmt(source: &str, causes: &Vec<String>) -> (r: String)
    ensures
        r@ == chain_text(source@, texts(causes@)),
{
    let mut out = chain_head(source);
    let ghost head = out@;
    let mut i: usize = 0;
    while i < causes.len()
        invariant
            i <= causes.len(),
            head == head_text(source@),
            out@ == head + causes_text(texts(causes@), i as int),
        decreases causes.len() - i,
    {
        let ghost before = causes_text(texts(causes@), i as int);
        let block = chain_cause(causes[i].as_str());
        out.append(block.as_str());
        proof {
            assert(texts(causes@)[i as int] == causes[i as int]@);
            assert(out@ =~= head + (before + cause_text(causes[i as int]@)));
        }
        i += 1;
    }
    out
}

} // verus!
