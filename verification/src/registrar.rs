//! What a registrar is asked and what its answers mean: the requests of a
//! reconciliation, the record that a lookup found, and the outcome.
//!
//! Nothing here talks to a registrar. A request is a value that the caller
//! sends, and a reply is a value that the caller hands back.

use crate::text::chars_of;
use vstd::prelude::*;

verus! {

// ---------------------------------------------------------------------------
// Outcomes
// ---------------------------------------------------------------------------

/// How a reconciliation ended where it did not fail.
#[derive(Clone, Copy, Debug, PartialEq, Eq, Structural)]
pub enum ReconcileOutcome {
    /// The registrar already held the desired address; nothing was written.
    Unchanged,
    /// The registrar held another address and accepted the new one.
    Updated,
}

/// Why a reconciliation failed.
#[derive(Clone, Copy, Debug, PartialEq, Eq, Structural)]
pub enum RegistrarError {
    /// The lookup did not find exactly one record.
    LookupAmbiguous,
    /// The update could not be made, did not arrive, or was not accepted.
    WriteFailed,
    /// The record is of a type that the registrar is not asked to keep.
    UnsupportedRecordType,
    /// The lookup did not reach the registrar.
    TransportError,
}

/// The type of a record, as far as it matters here.
#[derive(Clone, Copy, Debug, PartialEq, Eq, Structural)]
pub enum RecordType {
    A,
    AAAA,
    Other,
}

/// The record type that a text names: `A`, `AAAA`, or any other.
pub open spec fn record_type_of(text: Seq<char>) -> RecordType {
    if text == seq!['A'] {
        RecordType::A
    } else if text == seq!['A', 'A', 'A', 'A'] {
        RecordType::AAAA
    } else {
        RecordType::Other
    }
}

/// Reads a record type.
pub fn parse_record_type(text: &str) -> (record_type: RecordType)
    ensures
        record_type == record_type_of(text@),
{
    let v = chars_of(text);
    if v.len() == 1 && v[0] == 'A' {
        assert(v@ =~= seq!['A']);
        RecordType::A
    } else if v.len() == 4 && v[0] == 'A' && v[1] == 'A' && v[2] == 'A' && v[3] == 'A' {
        assert(v@ =~= seq!['A', 'A', 'A', 'A']);
        RecordType::AAAA
    } else {
        proof {
            if v@ == seq!['A'] {
                assert(v@[0] == 'A');
            }
            if v@ == seq!['A', 'A', 'A', 'A'] {
                assert(v@[0] == 'A' && v@[1] == 'A' && v@[2] == 'A' && v@[3] == 'A');
            }
        }
        RecordType::Other
    }
}

// ---------------------------------------------------------------------------
// Requests and replies
// ---------------------------------------------------------------------------

/// How a request is to be sent.
#[derive(Clone, Copy, Debug, PartialEq, Eq, Structural)]
pub enum Method {
    /// An HTTP `GET` of the target, with the fields as headers.
    Get,
    /// An HTTP `PUT` of the body to the target, with the fields as headers.
    Put,
    /// A signed call of the action that the target names, with the fields as
    /// its parameters.
    Call,
}

/// One request to a registrar.
#[derive(Clone, Debug)]
pub struct Request {
    pub method: Method,
    pub target: String,
    pub fields: Vec<(String, String)>,
    pub body: Option<String>,
}

/// A `Request` with its texts as characters.
pub struct RequestView {
    pub method: Method,
    pub target: Seq<char>,
    pub fields: Seq<(Seq<char>, Seq<char>)>,
    pub body: Option<Seq<char>>,
}

/// The fields of a list, each with its name and its value as characters.
pub open spec fn field_views(fields: Seq<(String, String)>) -> Seq<(Seq<char>, Seq<char>)> {
    Seq::new(fields.len(), |i: int| (fields[i].0@, fields[i].1@))
}

impl View for Request {
    type V = RequestView;

    open spec fn view(&self) -> RequestView {
        RequestView {
            method: self.method,
            target: self.target@,
            fields: field_views(self.fields@),
            body: match self.body {
                Some(body) => Some(body@),
                None => None,
            },
        }
    }
}

/// What came back for a request that reached the registrar.
#[derive(Clone, Debug)]
pub struct Reply {
    /// The HTTP status, where the transport reports one.
    pub status: Option<u16>,
    pub body: String,
}

/// The record that a lookup found.
#[derive(Clone, Debug)]
pub enum RegistrarRecordState {
    /// No record could be read from the answer.
    Missing,
    /// Exactly one record, with the registrar's identifier for it and the
    /// address it holds, as the registrar writes it.
    Single { id: String, content: String },
    /// More than one record.
    Multiple,
}

/// A `RegistrarRecordState` with its texts as characters.
pub enum StateView {
    Missing,
    Single { id: Seq<char>, content: Seq<char> },
    Multiple,
}

impl View for RegistrarRecordState {
    type V = StateView;

    open spec fn view(&self) -> StateView {
        match self {
            RegistrarRecordState::Missing => StateView::Missing,
            RegistrarRecordState::Single { id, content } => StateView::Single {
                id: id@,
                content: content@,
            },
            RegistrarRecordState::Multiple => StateView::Multiple,
        }
    }
}

/// What is to be done next in a reconciliation.
#[derive(Debug)]
pub enum Step {
    /// This request is to be sent and the reply handed back.
    Send(Request),
    /// The reconciliation is over.
    Done(Result<ReconcileOutcome, RegistrarError>),
}

/// A `Step` with its request as a view.
pub enum StepView {
    Send(RequestView),
    Done(Result<ReconcileOutcome, RegistrarError>),
}

impl View for Step {
    type V = StepView;

    open spec fn view(&self) -> StepView {
        match self {
            Step::Send(request) => StepView::Send(request@),
            Step::Done(result) => StepView::Done(*result),
        }
    }
}

/// Whether a status is one of success: 200 to 299.
pub open spec fn is_success_status(status: Option<u16>) -> bool {
    status matches Some(s) && 200 <= s <= 299
}

/// Whether two texts are the same.
pub fn same_text(a: &str, b: &str) -> (same: bool)
    ensures
        same == (a@ == b@),
{
    let x = a.to_owned();
    let y = b.to_owned();
    x == y
}

} // verus!
