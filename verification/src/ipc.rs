//! Messages between a client and the agent: one line of text each.

use crate::error::{outcome, ErrorView, IoFailure, IoKind, PyopsError};
use crate::text::{cat2, cat4, find, is_whitespace, lemma_find_is, opt_text, trim_end, trimmed_end};
use vstd::prelude::*;

verus! {

// ---- Lines ----

/// A message as it is sent.
pub open spec fn framed(payload: Seq<char>) -> Seq<char> {
    payload + "\n"@
}

/// A JSON message as it is sent.
pub fn write_line_json(payload: &str) -> (r: String)
    ensures
        r@ == framed(payload@),
{
    cat2(payload, "\n")
}

/// The JSON message in a line that was read.
pub fn read_line_json(line: &str) -> (r: String)
    ensures
        r@ == trim_end(line@),
{
    trimmed_end(line)
}

/// A message that holds no line break and does not end in white space comes out
/// as it went in, and takes exactly one line.
pub proof fn law_messages_arrive(payload: Seq<char>)
    requires
        payload.len() > 0 ==> !is_whitespace(payload.last()),
        forall|i: int| 0 <= i < payload.len() ==> payload[i] != '\n',
    ensures
        trim_end(framed(payload)) == payload,
        find(framed(payload), '\n') == payload.len(),
        framed(payload).len() == payload.len() + 1,
{
    reveal_strlit("\n");
    let f = framed(payload);
    assert(f.last() == '\n');
    assert(f.drop_last() =~= payload);
    assert(trim_end(f) == trim_end(payload));
    lemma_find_is(f, '\n', payload.len() as int);
}

// ---- The client ----

/// A client of the agent that listens at `socket_path`.
#[derive(Debug)]
pub struct IpcClient {
    pub socket_path: String,
}

impl Clone for IpcClient {
    fn clone(&self) -> (r: Self)
        ensures
            r.socket_path@ == self.socket_path@,
    {
        IpcClient { socket_path: self.socket_path.clone() }
    }
}

impl IpcClient {
    pub fn new(socket_path: String) -> (r: Self)
        ensures
            r.socket_path@ == socket_path@,
    {
        IpcClient { socket_path }
    }

    /// The error where the agent cannot be reached.
    pub fn connect_error(&self, reason: &str) -> (r: PyopsError)
        ensures
            r@ == ErrorView::Ipc(
                "failed to connect to agent socket "@ + self.socket_path@ + ": "@ + reason@,
            ),
    {
        PyopsError::Ipc(
            cat4("failed to connect to agent socket ", self.socket_path.as_str(), ": ", reason),
        )
    }
}

/// What came of sending a line to the agent and reading one back.
pub enum Exchange {
    /// The agent could not be reached, and how that is worded.
    NotConnected(String),
    Failed(IoFailure),
    Line(String),
}

impl IpcClient {
    /// The message that came back, or what went wrong.
    pub open spec fn exchanged(self, exchange: Exchange) -> Result<Seq<char>, ErrorView> {
        match exchange {
            Exchange::NotConnected(reason) => Err(
                ErrorView::Ipc(
                    "failed to connect to agent socket "@ + self.socket_path@ + ": "@ + reason@,
                ),
            ),
            Exchange::Failed(f) => Err(ErrorView::Io(f.kind, f.message@)),
            Exchange::Line(line) => Ok(trim_end(line@)),
        }
    }

    /// Whether `r` is what came of handing `payload`, as a line, to `exchange`.
    pub open spec fn answered<F: Fn(&str, &str) -> Exchange>(
        self,
        payload: Seq<char>,
        exchange: F,
        r: Result<Seq<char>, ErrorView>,
    ) -> bool {
        exists|path: &str, line: &str, e: Exchange|
            path@ == self.socket_path@ && line@ == framed(payload) && #[trigger] call_ensures(
                exchange,
                (path, line),
                e,
            ) && r == self.exchanged(e)
    }

    /// Sends the message `payload` to the agent and returns the one that comes
    /// back. `exchange` connects to the socket, writes the line and reads one.
    pub fn request<F: Fn(&str, &str) -> Exchange>(&self, payload: &str, exchange: F) -> (r: Result<
        String,
        PyopsError,
    >)
        requires
            forall|path: &str, line: &str| call_requires(exchange, (path, line)),
        ensures
            self.answered(payload@, exchange, outcome(r)),
    {
        let line = write_line_json(payload);
        let path = self.socket_path.as_str();
        let sent = line.as_str();
        let e = exchange(path, sent);
        assert(call_ensures(exchange, (path, sent), e));
        match e {
            Exchange::NotConnected(reason) => Err(self.connect_error(reason.as_str())),
            Exchange::Failed(f) => Err(PyopsError::Io(f)),
            Exchange::Line(back) => Ok(read_line_json(back.as_str())),
        }
    }
}

/// A reply as a client reads it: what it carries is left as it came.
pub struct WireResponse<T> {
    pub ok: bool,
    pub data: Option<T>,
    pub error: Option<String>,
}

/// The error that a refused request comes back with.
pub open spec fn refusal(error: Option<Seq<char>>, otherwise: Seq<char>) -> ErrorView {
    ErrorView::Ipc(
        match error {
            Some(m) => m,
            None => otherwise,
        },
    )
}

impl<T> WireResponse<T> {
    /// What the reply carries, if the request was carried out; if it was not, the
    /// error in the reply, or the one in `otherwise`.
    pub fn accepted(self, otherwise: &str) -> (r: Result<Option<T>, PyopsError>)
        ensures
            match r {
                Ok(data) => self.ok && data == self.data,
                Err(e) => !self.ok && e@ == refusal(opt_text(self.error), otherwise@),
            },
    {
        if !self.ok {
            return Err(
                PyopsError::Ipc(
                    match self.error {
                        Some(m) => m,
                        None => otherwise.to_owned(),
                    },
                ),
            );
        }
        Ok(self.data)
    }

    /// Whether `r` is what the reply carries: an error where the request was not
    /// carried out, or where there is nothing.
    pub open spec fn carries(
        self,
        otherwise: Seq<char>,
        empty: Seq<char>,
        r: Result<T, PyopsError>,
    ) -> bool {
        match r {
            Ok(data) => self.ok && self.data == Some(data),
            Err(e) => if self.ok {
                self.data is None && e@ == ErrorView::Ipc(empty)
            } else {
                e@ == refusal(opt_text(self.error), otherwise)
            },
        }
    }

    /// What the reply carries, where it carries something.
    pub fn carried(self) -> (r: Option<T>)
        ensures
            r == if self.ok {
                self.data
            } else {
                None
            },
    {
        if self.ok {
            self.data
        } else {
            None
        }
    }

    /// What the reply carries; it is an error where there is nothing.
    pub fn payload(self, otherwise: &str, empty: &str) -> (r: Result<T, PyopsError>)
        ensures
            self.carries(otherwise@, empty@, r),
    {
        match self.accepted(otherwise) {
            Ok(Some(data)) => Ok(data),
            Ok(None) => Err(PyopsError::Ipc(empty.to_owned())),
            Err(e) => Err(e),
        }
    }
}

/// Whether `r` is the part that was found: an error where it is missing.
pub open spec fn is_part<T>(
    found: Option<T>,
    missing: Seq<char>,
    r: Result<T, PyopsError>,
) -> bool {
    match r {
        Ok(data) => found == Some(data),
        Err(e) => found is None && e@ == ErrorView::Ipc(missing),
    }
}

/// A part of what a reply carries; it is an error where it is missing.
pub fn part<T>(found: Option<T>, missing: &str) -> (r: Result<T, PyopsError>)
    ensures
        is_part(found, missing@, r),
{
    match found {
        Some(data) => Ok(data),
        None => Err(PyopsError::Ipc(missing.to_owned())),
    }
}

// ---- Streams ----

/// What came of reading a line of a stream: the number of bytes, or a failure.
pub enum LineRead {
    Bytes(usize),
    Failed(IoFailure),
}

/// What to do after a read from a stream.
pub enum StreamStep {
    /// Look whether to stop, and read again.
    Again,
    /// Take the line that was read.
    Take,
    /// The stream is over.
    End,
    Fail(PyopsError),
}

/// Whether a read that failed so is to be tried again.
pub open spec fn passing(kind: IoKind) -> bool {
    kind == IoKind::WouldBlock || kind == IoKind::TimedOut || kind == IoKind::Interrupted
}

/// What to do after a read from a stream.
pub fn stream_step(read: LineRead) -> (r: StreamStep)
    ensures
        match read {
            LineRead::Bytes(n) => r == if n == 0 {
                StreamStep::End
            } else {
                StreamStep::Take
            },
            LineRead::Failed(f) => if passing(f.kind) {
                r == StreamStep::Again
            } else {
                r matches StreamStep::Fail(e) && e@ == ErrorView::Io(f.kind, f.message@)
            },
        },
{
    match read {
        LineRead::Bytes(n) => if n == 0 {
            StreamStep::End
        } else {
            StreamStep::Take
        },
        LineRead::Failed(f) => {
            if f.kind == IoKind::WouldBlock || f.kind == IoKind::TimedOut || f.kind
                == IoKind::Interrupted {
                StreamStep::Again
            } else {
                StreamStep::Fail(PyopsError::Io(f))
            }
        },
    }
}

/// What an item of a stream carries; a refusal ends the stream.
pub fn stream_item<T>(resp: WireResponse<T>) -> (r: Result<Option<T>, PyopsError>)
    ensures
        match r {
            Ok(data) => resp.ok && data == resp.data,
            Err(e) => !resp.ok && e@ == refusal(
                opt_text(resp.error),
                "log stream returned unknown error"@,
            ),
        },
{
    resp.accepted("log stream returned unknown error")
}

/// A reply that says the request was not carried out is an error, in the words of
/// the agent where it has any; one that says it was, and carries nothing, is one
/// too where something was asked for.
pub proof fn law_refusals_are_errors<T>(
    resp: WireResponse<T>,
    otherwise: Seq<char>,
    empty: Seq<char>,
    r: Result<T, PyopsError>,
)
    requires
        resp.carries(otherwise, empty, r),
    ensures
        resp.ok && resp.data is Some ==> r == Ok::<T, PyopsError>(resp.data->0),
        resp.ok && resp.data is None ==> (r matches Err(e) && e@ == ErrorView::Ipc(empty)),
        !resp.ok && resp.error is Some ==> (r matches Err(e) && e@ == ErrorView::Ipc(
            resp.error->0@,
        )),
        !resp.ok && resp.error is None ==> (r matches Err(e) && e@ == ErrorView::Ipc(otherwise)),
{
}

/// A read that only has to be tried again is: one that would have to wait, took too
/// long or was interrupted.
pub proof fn law_passing_failures(kind: IoKind)
    ensures
        passing(kind) <==> kind == IoKind::WouldBlock || kind == IoKind::TimedOut || kind
            == IoKind::Interrupted,
{
}

/// What comes back of an exchange: the message without the end of its line, or why
/// there is none.
pub proof fn law_exchanges(client: IpcClient, reason: String, failure: IoFailure, line: String)
    ensures
        client.exchanged(Exchange::Line(line)) == Ok::<Seq<char>, ErrorView>(trim_end(line@)),
        client.exchanged(Exchange::Failed(failure)) == Err::<Seq<char>, ErrorView>(
            ErrorView::Io(failure.kind, failure.message@),
        ),
        client.exchanged(Exchange::NotConnected(reason)) == Err::<Seq<char>, ErrorView>(
            ErrorView::Ipc(
                "failed to connect to agent socket "@ + client.socket_path@ + ": "@ + reason@,
            ),
        ),
{
}

/// A part that a reply has is handed on, and one that it lacks is an error that says
/// so.
pub proof fn law_missing_parts<T>(
    found: Option<T>,
    missing: Seq<char>,
    r: Result<T, PyopsError>,
)
    requires
        is_part(found, missing, r),
    ensures
        found is Some ==> r == Ok::<T, PyopsError>(found->0),
        found is None ==> (r matches Err(e) && e@ == ErrorView::Ipc(missing)),
{
}

/// A request is one line, sent to the socket of the client, and what comes back is
/// what was said to that line there.
pub proof fn law_requests_are_lines<F: Fn(&str, &str) -> Exchange>(
    client: IpcClient,
    payload: Seq<char>,
    exchange: F,
    reply: String,
    r: Result<Seq<char>, ErrorView>,
)
    requires
        client.answered(payload, exchange, r),
        forall|path: &str, line: &str, e: Exchange|
            #[trigger] call_ensures(exchange, (path, line), e) && path@ == client.socket_path@
                && line@ == payload + "\n"@ ==> e == Exchange::Line(reply),
    ensures
        r == Ok::<Seq<char>, ErrorView>(trim_end(reply@)),
{
}

} // verus!
