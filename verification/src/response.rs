//! What a run tells its caller: one line of text in a response that
//! always has the status 200.

use crate::number::{decimal, write_decimal};
use vstd::prelude::*;
use vstd::string::*;
use vstd::utf8::*;

verus! {

/// The status of every response.
pub const STATUS_OK: u16 = 200;

pub const CONTENT_TYPE: &'static str = "content-type";

pub const TEXT_HTML: &'static str = "text/html";

pub const CREATE_FAILED: &'static str = "Cannot create collection";

pub const QUERY_FAILED: &'static str = "Cannot query database!";

pub const UPSERT_FAILED: &'static str = "Cannot upsert into database!";

pub const INSERTED_HEAD: &'static str = "Successfully inserted ";

pub const INSERTED_MIDDLE: &'static str = " records. The collection now has ";

pub const INSERTED_TAIL: &'static str = " records in total.";

/// How a run ended, as far as the caller is told.
#[derive(Clone, Copy, Debug, PartialEq, Eq, Structural)]
pub enum Outcome {
    /// The collection could not be created.
    CreateFailed,
    /// The collection could not be asked for its number of points.
    QueryFailed,
    /// The points could not be stored, or the collection could not be asked
    /// for its number of points afterwards.
    UpsertFailed,
    /// The points were stored.
    Inserted {
        /// Number of points that the run stored.
        inserted: usize,
        /// Number of points that the collection holds after the run.
        total: u64,
    },
}

/// The line that reports `outcome`.
pub open spec fn message_of(outcome: Outcome) -> Seq<char> {
    match outcome {
        Outcome::CreateFailed => CREATE_FAILED@,
        Outcome::QueryFailed => QUERY_FAILED@,
        Outcome::UpsertFailed => UPSERT_FAILED@,
        Outcome::Inserted { inserted, total } => INSERTED_HEAD@ + decimal(inserted as nat)
            + INSERTED_MIDDLE@ + decimal(total as nat) + INSERTED_TAIL@,
    }
}

/// A response as a value of mathematics.
pub struct ResponseView {
    pub status: u16,
    pub headers: Seq<(Seq<char>, Seq<char>)>,
    pub body: Seq<u8>,
}

/// The response that carries `message`: status 200, the content type
/// `text/html` as the one header, and the message in UTF-8 as the body.
pub open spec fn html_response(message: Seq<char>) -> ResponseView {
    ResponseView {
        status: STATUS_OK,
        headers: seq![(CONTENT_TYPE@, TEXT_HTML@)],
        body: encode_utf8(message),
    }
}

/// A response: status, headers and body.
#[derive(Clone, Debug, PartialEq, Eq)]
pub struct Response {
    pub status: u16,
    pub headers: Vec<(String, String)>,
    pub body: Vec<u8>,
}

impl View for Response {
    type V = ResponseView;

    open spec fn view(&self) -> ResponseView {
        ResponseView {
            status: self.status,
            headers: self.headers.deep_view(),
            body: self.body@,
        }
    }
}

impl Response {
    /// The response that carries `message`.
    pub fn html(message: &str) -> (response: Response)
        ensures
            response@ == html_response(message@),
    {
        let mut headers: Vec<(String, String)> = Vec::new();
        headers.push((CONTENT_TYPE.to_owned(), TEXT_HTML.to_owned()));
        let response = Response { status: STATUS_OK, headers, body: message.as_bytes_vec() };
        proof {
            assert(response.headers.deep_view() =~= seq![(CONTENT_TYPE@, TEXT_HTML@)]);
        }
        response
    }
}

impl Outcome {
    /// The line that reports this outcome.
    pub fn message(&self) -> (line: String)
        ensures
            line@ == message_of(*self),
    {
        match self {
            Outcome::CreateFailed => CREATE_FAILED.to_owned(),
            Outcome::QueryFailed => QUERY_FAILED.to_owned(),
            Outcome::UpsertFailed => UPSERT_FAILED.to_owned(),
            Outcome::Inserted { inserted, total } => {
                let mut line = INSERTED_HEAD.to_owned();
                write_decimal(&mut line, *inserted as u64);
                line.append(INSERTED_MIDDLE);
                write_decimal(&mut line, *total);
                line.append(INSERTED_TAIL);
                line
            },
        }
    }

    /// The response that reports this outcome.
    pub fn response(&self) -> (response: Response)
        ensures
            response@ == html_response(message_of(*self)),
    {
        let line = self.message();
        Response::html(line.as_str())
    }
}

} // verus!
