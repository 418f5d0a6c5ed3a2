//! One connection: what to do after each thing the server learns.
//!
//! The server reads the request line, looks at the file system and writes to
//! the socket; the functions here decide, from what it found, what it does
//! next.

use vstd::prelude::*;
use crate::request::{parse_request, requested_path};
use crate::response::{error_response, error_text, file_head, file_response_head, Status};

verus! {

/// The file that stands for a directory.
pub const DEFAULT_FILE: &'static str = "home.html";

/// The page sent in place of a file that does not exist.
pub const ERROR_PAGE: &'static str = "404.html";

/// Which file the server is reading.
#[derive(Clone, Copy, Debug, PartialEq, Eq, Structural)]
pub enum Target {
    /// The file that the request names, below the served directory.
    Requested,
    /// `home.html` in the directory that the request names.
    DefaultFile,
    /// `404.html` in the served directory.
    ErrorPage,
}

/// How reading a file went.
#[derive(Clone, Copy, Debug, PartialEq, Eq, Structural)]
pub enum ReadOutcome {
    /// The file was read; it holds this many bytes.
    Found(usize),
    /// There is no such file.
    NotFound,
    /// The file could not be read for another reason.
    Failed,
}

/// What the server does next.
#[derive(Debug, PartialEq, Eq)]
pub enum Action {
    /// Find out whether this path, below the served directory, is a
    /// directory.
    Inspect(String),
    /// Read this file.
    Read(Target),
    /// Send this head, then the bytes of the file just read; the connection
    /// is done.
    SendFile(String),
    /// Send this response; the connection is done.
    SendError(String),
}

/// An [`Action`] with its texts as sequences of characters.
pub enum ActionView {
    Inspect(Seq<char>),
    Read(Target),
    SendFile(Seq<char>),
    SendError(Seq<char>),
}

impl View for Action {
    type V = ActionView;

    open spec fn view(&self) -> ActionView {
        match self {
            Action::Inspect(path) => ActionView::Inspect(path@),
            Action::Read(target) => ActionView::Read(*target),
            Action::SendFile(head) => ActionView::SendFile(head@),
            Action::SendError(response) => ActionView::SendError(response@),
        }
    }
}

/// The media type that `mime_guess` gives for a path, as text.
pub uninterp spec fn guessed_mime(path: Seq<char>) -> Seq<char>;

/// Calls `mime_guess::from_path` on `path`, takes `first_or_text_plain` of
/// the guess and renders that media type as text. The guess goes by the
/// path's extension alone, looked up in a table compiled into the crate, and
/// touches no file; nothing more is claimed than that equal paths give equal
/// texts.
#[verifier::external_body]
fn guess_mime(path: &str) -> (mime: String)
    ensures
        mime@ == guessed_mime(path@),
{
    mime_guess::from_path(path).first_or_text_plain().to_string()
}

/// The response to a request that cannot be read or understood.
pub open spec fn bad_request() -> ActionView {
    ActionView::SendError(error_text(Status::BadRequest, "Invalid HTTP request."@))
}

/// What follows the first line of the request; `None` stands for a
/// connection that gave no line.
pub open spec fn after_request_line(line: Option<Seq<char>>) -> ActionView {
    match line {
        Some(text) => match requested_path(text) {
            Some(path) => ActionView::Inspect(path),
            None => bad_request(),
        },
        None => bad_request(),
    }
}

/// The status under which a file is sent: the error page goes out as
/// `404 Not Found`, every other file as `200 OK`.
pub open spec fn status_of(target: Target) -> Status {
    match target {
        Target::ErrorPage => Status::NotFound,
        _ => Status::Success,
    }
}

/// What follows an attempt to read `target`, where `mime` is the media type
/// of the file read.
pub open spec fn after_read(target: Target, outcome: ReadOutcome, mime: Seq<char>) -> ActionView {
    match outcome {
        ReadOutcome::Found(len) => ActionView::SendFile(
            file_head(status_of(target), mime, len as nat),
        ),
        _ => match target {
            Target::DefaultFile => ActionView::SendError(
                error_text(Status::NotFound, "Default file not found."@),
            ),
            Target::ErrorPage => ActionView::SendError(
                error_text(Status::NotFound, "File not found."@),
            ),
            Target::Requested => if outcome == ReadOutcome::NotFound {
                ActionView::Read(Target::ErrorPage)
            } else {
                ActionView::SendError(error_text(Status::InternalServerError, "Server error."@))
            },
        },
    }
}

/// The first decision: a request line that asks for a path leads to a look
/// at that path; a missing or malformed line is answered with
/// `400 Bad Request`.
pub fn on_request_line(line: Option<&str>) -> (action: Action)
    ensures
        action@ == after_request_line(
            match line {
                Some(text) => Some(text@),
                None => None,
            },
        ),
{
    let path = match line {
        Some(text) => parse_request(text),
        None => None,
    };
    match path {
        Some(path) => Action::Inspect(path),
        None => Action::SendError(error_response(Status::BadRequest, "Invalid HTTP request.")),
    }
}

/// The second decision: a directory is answered with its default file, any
/// other path with the file itself.
pub fn on_inspected(is_dir: bool) -> (action: Action)
    ensures
        action@ == ActionView::Read(
            if is_dir {
                Target::DefaultFile
            } else {
                Target::Requested
            },
        ),
{
    if is_dir {
        Action::Read(Target::DefaultFile)
    } else {
        Action::Read(Target::Requested)
    }
}

/// The decision after a read, given the media type of the file. A file
/// that was read is sent. A requested file that does not exist leads to the
/// error page; one that cannot be read, to `500 Internal Server Error`. A
/// default file or an error page that cannot be had leads to a plain
/// `404 Not Found`.
pub fn decide_after_read(target: Target, outcome: ReadOutcome, mime: &str) -> (action: Action)
    ensures
        action@ == after_read(target, outcome, mime@),
{
    match outcome {
        ReadOutcome::Found(len) => {
            let status = match target {
                Target::ErrorPage => Status::NotFound,
                _ => Status::Success,
            };
            Action::SendFile(file_response_head(status, mime, len))
        },
        _ => match target {
            Target::DefaultFile => Action::SendError(
                error_response(Status::NotFound, "Default file not found."),
            ),
            Target::ErrorPage => Action::SendError(
                error_response(Status::NotFound, "File not found."),
            ),
            Target::Requested => match outcome {
                ReadOutcome::NotFound => Action::Read(Target::ErrorPage),
                _ => Action::SendError(
                    error_response(Status::InternalServerError, "Server error."),
                ),
            },
        },
    }
}

/// The decision after a read of the file at `path`: as
/// [`decide_after_read`], with the media type guessed from the path.
pub fn on_read(target: Target, path: &str, outcome: ReadOutcome) -> (action: Action)
    ensures
        action@ == after_read(target, outcome, guessed_mime(path@)),
{
    match outcome {
        ReadOutcome::Found(_) => {
            let mime = guess_mime(path);
            decide_after_read(target, outcome, mime.as_str())
        },
        _ => decide_after_read(target, outcome, ""),
    }
}

} // verus!
