//! Failures and how they are shown to the client.
//!
//! Authentication and validation failures are results that the caller can
//! act on. Internal failures are answered with a generic message; their
//! detail is handed back for the server's log and never reaches the client.

use crate::codec::lemma_ascii_is_utf8;
use crate::encoding::{digits, is_digit, lemma_digits_round_trip, unsigned_encode};
use vstd::prelude::*;
use vstd::string::StringExecFns;
use vstd::utf8::decode_utf8;

verus! {

/// The message that stands in for every internal failure but one.
pub const INTERNAL_MESSAGE: &'static str = "Internal server error";

/// The message that stands in for a failure inside the web framework.
pub const SALVO_MESSAGE: &'static str = "Unknown error happened in salvo.";

/// The text of an HTTP status code: its number and its canonical reason, as
/// in `401 Unauthorized`. `None` for a number that is no status code.
pub uninterp spec fn status_code_text(code: u16) -> Option<Seq<char>>;

/// Asks `salvo::http::StatusCode`: `from_u16`, which refuses numbers that
/// are no status code, and the code's `to_string`. The contract only names
/// the result.
#[verifier::external_body]
fn status_text(code: u16) -> (text: Option<String>)
    ensures
        text is Some <==> status_code_text(code) is Some,
        text matches Some(t) ==> status_code_text(code) == Some(t@),
{
    salvo::http::StatusCode::from_u16(code).ok().map(|status| status.to_string())
}

/// The prefix of the message of a validation failure.
pub const VALIDATION_PREFIX: &'static str = "Validation error: ";

/// An HTTP status with a name and an optional brief explanation.
#[derive(Debug, Clone, PartialEq, Eq)]
pub struct StatusError {
    pub code: u16,
    pub name: String,
    pub brief: String,
}

/// The body of an error reply.
#[derive(Debug, Clone, PartialEq, Eq)]
pub struct ErrorResponse {
    pub code: i32,
    pub msg: String,
}

/// One field that failed validation, and why.
#[derive(Debug, Clone, PartialEq, Eq)]
pub struct FieldError {
    pub field: String,
    pub message: String,
}

/// The fields of an input that failed validation, in the order in which the
/// input declares them.
#[derive(Debug, Clone, PartialEq, Eq)]
pub struct ValidationErrors {
    pub fields: Vec<FieldError>,
}

/// Everything that can go wrong while a request is served.
#[derive(Debug, Clone, PartialEq, Eq)]
pub enum AppError {
    /// A mistake of the client, with a message meant for it.
    Public(String),
    /// A fault of the server, with a message meant for the log.
    Internal(String),
    /// A fault inside the web framework, by its description.
    Salvo(String),
    /// A failure that is an HTTP status of its own.
    HttpStatus(StatusError),
    /// A request that could not be parsed, by the parser's description.
    HttpParse(String),
    /// Any other fault, by its description.
    Anyhow(String),
    /// A fault of the database, by its description.
    Seaorm(String),
    /// Input that failed validation.
    Validation(ValidationErrors),
}

/// What the boundary layer does with a failure: the status line, the body,
/// and the detail to write to the server's log, if any.
#[derive(Debug, Clone, PartialEq, Eq)]
pub struct Outcome {
    pub status: u16,
    pub body: ErrorResponse,
    pub log: Option<String>,
}

/// The text of a list of field errors: one line per field, `field: message`.
pub open spec fn fields_text(fields: Seq<FieldError>) -> Seq<char>
    decreases fields.len(),
{
    if fields.len() == 0 {
        Seq::empty()
    } else if fields.len() == 1 {
        fields[0].field@ + ": "@ + fields[0].message@
    } else {
        fields_text(fields.drop_last()) + "\n"@ + fields.last().field@ + ": "@
            + fields.last().message@
    }
}

impl ValidationErrors {
    /// The failing fields as text, one line per field.
    pub fn to_text(&self) -> (text: String)
        ensures
            text@ == fields_text(self.fields@),
    {
        let mut text = String::new();
        let mut i: usize = 0;
        assert(self.fields@.take(0) =~= Seq::<FieldError>::empty());
        while i < self.fields.len()
            invariant
                0 <= i <= self.fields@.len(),
                text@ == fields_text(self.fields@.take(i as int)),
            decreases self.fields@.len() - i,
        {
            let ghost before = self.fields@.take(i as int);
            let ghost after = self.fields@.take(i + 1);
            assert(after.drop_last() =~= before);
            assert(after.last() == self.fields@[i as int]);
            if i > 0 {
                text.append("\n");
            }
            text.append(self.fields[i].field.as_str());
            text.append(": ");
            text.append(self.fields[i].message.as_str());
            assert(text@ =~= fields_text(after));
            i += 1;
        }
        assert(self.fields@.take(i as int) =~= self.fields@);
        text
    }
}

/// What the client is told of `error`: status, code and message.
pub open spec fn shown(error: AppError) -> (u16, i32, Seq<char>) {
    match error {
        AppError::HttpStatus(e) => (
            e.code,
            e.code as i32,
            if e.brief@.len() == 0 {
                e.name@
            } else {
                e.brief@
            },
        ),
        AppError::Public(msg) => (400, 400, msg@),
        AppError::Validation(e) => (400, 400, VALIDATION_PREFIX@ + fields_text(e.fields@)),
        AppError::Salvo(_) => (500, 500, SALVO_MESSAGE@),
        _ => (500, 500, INTERNAL_MESSAGE@),
    }
}

/// The code of a status as text: the text of the status code, or the bare
/// number where the number is no status code.
pub open spec fn code_text(code: u16) -> Seq<char> {
    match status_code_text(code) {
        Some(text) => text,
        None => decode_utf8(digits(code as nat)),
    }
}

/// The text of a status failure: code, name and brief.
pub open spec fn status_error_text(error: StatusError) -> Seq<char> {
    "code: "@ + code_text(error.code) + " name: "@ + error.name@ + " brief: "@ + error.brief@
}

/// The text of `error`: what kind of failure it is, and in backticks the
/// message it carries. A status failure carries the text of its status, a
/// validation failure the list of its failing fields.
pub open spec fn error_text(error: AppError) -> Seq<char> {
    match error {
        AppError::Public(msg) => "public: `"@ + msg@ + "`"@,
        AppError::Internal(msg) => "internal: `"@ + msg@ + "`"@,
        AppError::Salvo(msg) => "salvo internal error: `"@ + msg@ + "`"@,
        AppError::HttpStatus(e) => "http status error: `"@ + status_error_text(e) + "`"@,
        AppError::HttpParse(msg) => "http parse error:`"@ + msg@ + "`"@,
        AppError::Anyhow(msg) => "anyhow error:`"@ + msg@ + "`"@,
        AppError::Seaorm(msg) => "seaorm db error:`"@ + msg@ + "`"@,
        AppError::Validation(e) => "validation error:`"@ + fields_text(e.fields@) + "`"@,
    }
}

/// `head`, then `body`, then a closing backtick.
fn quoted(head: &str, body: &str) -> (text: String)
    ensures
        text@ == head@ + body@ + "`"@,
{
    let mut text = head.to_owned();
    text.append(body);
    text.append("`");
    text
}

impl StatusError {
    /// The text of this status failure: `code: `, the text of the status
    /// code, ` name: `, the name, ` brief: `, the brief.
    pub fn to_text(&self) -> (text: String)
        ensures
            text@ == status_error_text(*self),
    {
        let code = match status_text(self.code) {
            Some(code) => code,
            None => {
                let number = unsigned_encode(self.code as u64);
                proof {
                    lemma_digits_round_trip(self.code as nat);
                    assert forall|i: int| 0 <= i < number@.len() implies number@[i] < 128 by {
                        assert(is_digit(number@[i]));
                    }
                    lemma_ascii_is_utf8(number@);
                }
                String::from_utf8(number).unwrap()
            },
        };
        let mut text = "code: ".to_owned();
        text.append(code.as_str());
        text.append(" name: ");
        text.append(self.name.as_str());
        text.append(" brief: ");
        text.append(self.brief.as_str());
        text
    }
}

/// What the server's log is told of `error`: the detail of an internal
/// failure, and nothing of a failure that the client caused.
pub open spec fn logged(error: AppError) -> Option<Seq<char>> {
    match error {
        AppError::Internal(msg) => Some(msg@),
        AppError::Salvo(msg) => Some(msg@),
        AppError::HttpParse(msg) => Some(msg@),
        AppError::Anyhow(msg) => Some(msg@),
        AppError::Seaorm(msg) => Some(msg@),
        _ => None,
    }
}

impl AppError {
    /// A mistake of the client.
    pub fn public(msg: &str) -> (error: AppError)
        ensures
            error matches AppError::Public(m) && m@ == msg@,
    {
        AppError::Public(msg.to_owned())
    }

    /// A fault of the server.
    pub fn internal(msg: &str) -> (error: AppError)
        ensures
            error matches AppError::Internal(m) && m@ == msg@,
    {
        AppError::Internal(msg.to_owned())
    }

    /// The text of this failure, for logs and for people.
    pub fn to_text(&self) -> (text: String)
        ensures
            text@ == error_text(*self),
    {
        match self {
            AppError::Public(msg) => quoted("public: `", msg.as_str()),
            AppError::Internal(msg) => quoted("internal: `", msg.as_str()),
            AppError::Salvo(msg) => quoted("salvo internal error: `", msg.as_str()),
            AppError::HttpStatus(e) => {
                let status = e.to_text();
                quoted("http status error: `", status.as_str())
            },
            AppError::HttpParse(msg) => quoted("http parse error:`", msg.as_str()),
            AppError::Anyhow(msg) => quoted("anyhow error:`", msg.as_str()),
            AppError::Seaorm(msg) => quoted("seaorm db error:`", msg.as_str()),
            AppError::Validation(e) => {
                let fields = e.to_text();
                quoted("validation error:`", fields.as_str())
            },
        }
    }

    /// Decides how this failure is answered. A status failure shows its
    /// brief, or its name when it has no brief; a client mistake and a
    /// validation failure are bad requests with their own message; every
    /// other failure is a 500 with a fixed message, and its detail goes to
    /// the log only.
    pub fn write(&self) -> (outcome: Outcome)
        ensures
            (outcome.status, outcome.body.code, outcome.body.msg@) == shown(*self),
            outcome.log is Some <==> logged(*self) is Some,
            outcome.log matches Some(detail) ==> logged(*self) == Some(detail@),
    {
        match self {
            AppError::HttpStatus(e) => {
                let brief = if e.brief.as_str().is_empty() {
                    e.name.clone()
                } else {
                    e.brief.clone()
                };
                Outcome {
                    status: e.code,
                    body: ErrorResponse { code: e.code as i32, msg: brief },
                    log: None,
                }
            },
            AppError::Public(msg) => Outcome {
                status: 400,
                body: ErrorResponse { code: 400, msg: msg.clone() },
                log: None,
            },
            AppError::Validation(e) => {
                let mut msg = VALIDATION_PREFIX.to_owned();
                let text = e.to_text();
                msg.append(text.as_str());
                Outcome { status: 400, body: ErrorResponse { code: 400, msg }, log: None }
            },
            AppError::Internal(msg) => internal_outcome(INTERNAL_MESSAGE, msg),
            AppError::Salvo(msg) => internal_outcome(SALVO_MESSAGE, msg),
            AppError::HttpParse(msg) => internal_outcome(INTERNAL_MESSAGE, msg),
            AppError::Anyhow(msg) => internal_outcome(INTERNAL_MESSAGE, msg),
            AppError::Seaorm(msg) => internal_outcome(INTERNAL_MESSAGE, msg),
        }
    }
}

fn internal_outcome(message: &str, detail: &String) -> (outcome: Outcome)
    ensures
        outcome.status == 500,
        outcome.body.code == 500,
        outcome.body.msg@ == message@,
        outcome.log matches Some(d) && d@ == detail@,
{
    Outcome {
        status: 500,
        body: ErrorResponse { code: 500, msg: message.to_owned() },
        log: Some(detail.clone()),
    }
}

/// The fixed message that the client sees of an internal failure.
pub open spec fn generic_message(error: AppError) -> Seq<char> {
    if error is Salvo {
        SALVO_MESSAGE@
    } else {
        INTERNAL_MESSAGE@
    }
}

/// No detail of an internal failure reaches the client: whatever the
/// description of the fault, the client sees status 500 and a fixed message
/// that depends on the kind of failure alone.
pub proof fn law_internal_detail_stays_inside(error: AppError)
    requires
        logged(error) is Some,
    ensures
        shown(error) == (500u16, 500i32, generic_message(error)),
{
}

} // verus!
