//! Line-oriented control plane shared by both daemons.
//!
//! The daemon serves incoming connections with one request/response round-trip
//! per line, or a long-lived event stream for an `events` request.

use vstd::prelude::*;

verus! {

/// Default control-socket path for the server daemon.
pub fn default_server_socket() -> (path: String)
    ensures
        path@ == "/tmp/iec-test-server.sock"@,
{
    String::from_str("/tmp/iec-test-server.sock")
}

/// Default control-socket path for the client daemon.
pub fn default_client_socket() -> (path: String)
    ensures
        path@ == "/tmp/iec-test-client.sock"@,
{
    String::from_str("/tmp/iec-test-client.sock")
}

/// One line read from a control connection.
#[derive(Debug, Clone, Copy, PartialEq, Eq, Structural)]
pub enum Line {
    /// The peer has closed its side.
    End,
    /// Nothing but white space.
    Blank,
    /// Not a request.
    Malformed,
    /// The request for an event stream.
    Events,
    /// The request to stop the daemon.
    Shutdown,
    /// Any other request.
    Request,
}

/// What to do about a line.
#[derive(Debug, Clone, Copy, PartialEq, Eq, Structural)]
pub enum LineAction {
    /// Close the connection.
    Close,
    /// Read the next line.
    Skip,
    /// Answer that the line cannot be parsed, and read on.
    Refuse,
    /// Acknowledge the subscription, stream events, then close.
    Stream,
    /// Answer that there is no event stream, and read on.
    NoStream,
    /// Let the handler answer, then close.
    AnswerAndClose,
    /// Let the handler answer, and read on.
    Answer,
}

/// Decide what to do about a line. `streams` says whether the handler has an
/// event stream to offer.
pub fn line_action(line: Line, streams: bool) -> (a: LineAction)
    ensures
        line is End <==> a is Close,
        line is Blank <==> a is Skip,
        line is Malformed <==> a is Refuse,
        line is Events && streams <==> a is Stream,
        line is Events && !streams <==> a is NoStream,
        line is Shutdown <==> a is AnswerAndClose,
        line is Request <==> a is Answer,
{
    match line {
        Line::End => LineAction::Close,
        Line::Blank => LineAction::Skip,
        Line::Malformed => LineAction::Refuse,
        Line::Events => if streams {
            LineAction::Stream
        } else {
            LineAction::NoStream
        },
        Line::Shutdown => LineAction::AnswerAndClose,
        Line::Request => LineAction::Answer,
    }
}

} // verus!
