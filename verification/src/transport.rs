//! The client side of the line-JSON exchange with the helper, as a state
//! machine: connect to the socket, send the encoded request as one line,
//! read one reply line and decode it. The caller performs each action
//! (socket I/O and JSON encoding) and hands back its outcome.
use vstd::prelude::*;

use crate::protocol::{DEFAULT_SOCKET_PATH, Request, Response};
use crate::text::{append_str, chars_of, lines, owned, string_of, trim, trimmed};

verus! {

#[verifier::external_type_specification]
#[verifier::external_body]
pub struct ExIoError(std::io::Error);

#[verifier::external_type_specification]
#[verifier::external_body]
pub struct ExJsonError(serde_json::Error);

/// Why an exchange with the helper failed.
pub enum IpcError {
    /// The socket could not be used.
    Io(std::io::Error),
    /// The request could not be encoded or the reply decoded.
    Json(serde_json::Error),
    /// The helper closed the connection without replying.
    ServerClosed,
    /// The IPC transport does not exist on this platform.
    Unsupported(&'static str),
}

/// Text of an I/O error (`std::io::Error`'s `Display`); it depends on the
/// operating system, so nothing is stated of it.
#[verifier::external_body]
fn describe_io(e: &std::io::Error) -> String {
    format!("{e}")
}

/// Text of a JSON error (`serde_json::Error`'s `Display`); the error is
/// opaque here, so nothing is stated of it.
#[verifier::external_body]
fn describe_json(e: &serde_json::Error) -> String {
    format!("{e}")
}

impl IpcError {
    /// The message shown to the user.
    pub fn message(&self) -> (m: String)
        ensures
            match self {
                IpcError::Io(_) => exists|d: Seq<char>|
                    m@ == "helper socket: "@ + d + " (is orion-helper running?)"@,
                IpcError::Json(_) => exists|d: Seq<char>| m@ == "protocol error: "@ + d,
                IpcError::ServerClosed => m@ == "helper closed the connection"@,
                IpcError::Unsupported(s) => m@ == s@,
            },
    {
        match self {
            IpcError::Io(e) => {
                let d = describe_io(e);
                let mut m = chars_of("helper socket: ");
                append_str(&mut m, d.as_str());
                append_str(&mut m, " (is orion-helper running?)");
                string_of(&m)
            },
            IpcError::Json(e) => {
                let d = describe_json(e);
                let mut m = chars_of("protocol error: ");
                append_str(&mut m, d.as_str());
                string_of(&m)
            },
            IpcError::ServerClosed => owned("helper closed the connection"),
            IpcError::Unsupported(s) => owned(s),
        }
    }
}

/// A message as sent on the wire: the text followed by one line feed.
pub fn frame_line(payload: &str) -> (line: String)
    ensures
        line@ == payload@ + "\n"@,
{
    let mut v = chars_of(payload);
    append_str(&mut v, "\n");
    string_of(&v)
}

/// A framed message reads back as exactly that one line, as long as it has
/// no line feed of its own and does not end with a carriage return (compact
/// JSON has neither).
pub proof fn lemma_framed_line_reads_back(p: Seq<char>)
    requires
        forall|i: int| 0 <= i < p.len() ==> p[i] != '\n',
        p.len() == 0 || p.last() != '\r',
    ensures
        lines(p + "\n"@) == seq![p],
{
    reveal_strlit("\n");
    let s = p + "\n"@;
    assert(s.last() == '\n');
    crate::text::lemma_char_pos_at(s, '\n', p.len() as int);
    let rest = s.skip((p.len() + 1) as int);
    assert(rest =~= seq![]);
    assert(s.take(p.len() as int) =~= p);
    assert(crate::text::split(s, '\n') =~= seq![p] + crate::text::split(rest, '\n'));
    crate::text::lemma_char_pos_at(rest, '\n', 0);
    assert(crate::text::split(rest, '\n') =~= seq![rest]);
    assert(crate::text::split(s, '\n').drop_last() =~= seq![p]);
}

/// What the caller is asked to do next.
pub enum CallAction {
    /// Connect to the helper's socket.
    Connect { path: String },
    /// Encode the request as JSON.
    Encode(Request),
    /// Write the line and flush.
    Send { line: String },
    /// Read one line of reply.
    ReadLine,
    /// Decode the reply text as a `Response`.
    Decode { text: String },
}

/// The outcome of an action.
pub enum CallOutcome {
    Connected(Result<(), std::io::Error>),
    Encoded(Result<String, serde_json::Error>),
    Sent(Result<(), std::io::Error>),
    /// Bytes read (0 at end of stream) and the text read.
    LineRead(Result<(usize, String), std::io::Error>),
    Decoded(Result<Response, serde_json::Error>),
}

#[derive(Clone, Copy, PartialEq, Eq, Structural)]
pub enum CallPhase {
    Connect,
    Encode,
    Send,
    Receive,
    Decode,
}

/// An exchange with the helper in progress.
pub struct Call {
    phase: CallPhase,
    path: String,
    request: Request,
    line: String,
    text: String,
}

pub struct CallView {
    pub phase: CallPhase,
    pub path: Seq<char>,
    pub request: Request,
    pub line: Seq<char>,
    pub text: Seq<char>,
}

impl View for Call {
    type V = CallView;

    closed spec fn view(&self) -> CallView {
        CallView {
            phase: self.phase,
            path: self.path@,
            request: self.request,
            line: self.line@,
            text: self.text@,
        }
    }
}

pub enum CallActionView {
    Connect(Seq<char>),
    Encode(Request),
    Send(Seq<char>),
    ReadLine,
    Decode(Seq<char>),
}

pub open spec fn call_action_view(a: CallAction) -> CallActionView {
    match a {
        CallAction::Connect { path } => CallActionView::Connect(path@),
        CallAction::Encode(r) => CallActionView::Encode(r),
        CallAction::Send { line } => CallActionView::Send(line@),
        CallAction::ReadLine => CallActionView::ReadLine,
        CallAction::Decode { text } => CallActionView::Decode(text@),
    }
}

pub open spec fn call_pending(v: CallView) -> CallActionView {
    match v.phase {
        CallPhase::Connect => CallActionView::Connect(v.path),
        CallPhase::Encode => CallActionView::Encode(v.request),
        CallPhase::Send => CallActionView::Send(v.line),
        CallPhase::Receive => CallActionView::ReadLine,
        CallPhase::Decode => CallActionView::Decode(v.text),
    }
}

pub enum CallNext {
    Go(CallView),
    Done(Result<Response, IpcError>),
}

/// The transition of an exchange on an outcome; an outcome that does not
/// answer the pending action leaves it unchanged.
pub open spec fn call_next(v: CallView, o: CallOutcome) -> CallNext {
    match (v.phase, o) {
        (CallPhase::Connect, CallOutcome::Connected(res)) => match res {
            Err(e) => CallNext::Done(Err(IpcError::Io(e))),
            Ok(_) => CallNext::Go(CallView { phase: CallPhase::Encode, ..v }),
        },
        (CallPhase::Encode, CallOutcome::Encoded(res)) => match res {
            Err(e) => CallNext::Done(Err(IpcError::Json(e))),
            Ok(s) => CallNext::Go(CallView { phase: CallPhase::Send, line: s@ + "\n"@, ..v }),
        },
        (CallPhase::Send, CallOutcome::Sent(res)) => match res {
            Err(e) => CallNext::Done(Err(IpcError::Io(e))),
            Ok(_) => CallNext::Go(CallView { phase: CallPhase::Receive, ..v }),
        },
        (CallPhase::Receive, CallOutcome::LineRead(res)) => match res {
            Err(e) => CallNext::Done(Err(IpcError::Io(e))),
            Ok((n, buf)) => if n == 0 {
                CallNext::Done(Err(IpcError::ServerClosed))
            } else {
                CallNext::Go(CallView { phase: CallPhase::Decode, text: trim(buf@), ..v })
            },
        },
        (CallPhase::Decode, CallOutcome::Decoded(res)) => match res {
            Err(e) => CallNext::Done(Err(IpcError::Json(e))),
            Ok(r) => CallNext::Done(Ok(r)),
        },
        _ => CallNext::Go(v),
    }
}

pub enum CallStep {
    Continue(Call, CallAction),
    Finish(Result<Response, IpcError>),
}

pub open spec fn call_step_is(r: CallStep, n: CallNext) -> bool {
    match n {
        CallNext::Go(v) => r matches CallStep::Continue(c, a) && c@ == v && call_action_view(a)
            == call_pending(v),
        CallNext::Done(x) => r matches CallStep::Finish(y) && y == x,
    }
}

/// The first state of an exchange of `req` over the socket at `path`.
pub open spec fn call_start(path: Seq<char>, req: Request) -> CallView {
    CallView { phase: CallPhase::Connect, path, request: req, line: seq![], text: seq![] }
}

/// A copy of a request.
pub fn copy_request(r: &Request) -> (c: Request)
    ensures
        c == *r,
{
    match r {
        Request::Status => Request::Status,
        Request::ListProfiles => Request::ListProfiles,
        Request::Connect { profile } => Request::Connect { profile: profile.clone() },
        Request::Disconnect => Request::Disconnect,
        Request::NewIdentity => Request::NewIdentity,
        Request::LaunchTorBrowser => Request::LaunchTorBrowser,
    }
}

/// Starts an exchange of `req` with the helper listening at `path`.
pub fn call_at(path: &str, req: &Request) -> (r: CallStep)
    ensures
        call_step_is(r, CallNext::Go(call_start(path@, *req))),
{
    let c = Call {
        phase: CallPhase::Connect,
        path: owned(path),
        request: copy_request(req),
        line: String::new(),
        text: String::new(),
    };
    assert(c@ == call_start(path@, *req));
    c.go()
}

/// Starts an exchange of `req` with the helper at its default socket.
pub fn call(req: &Request) -> (r: CallStep)
    ensures
        call_step_is(r, CallNext::Go(call_start(DEFAULT_SOCKET_PATH@, *req))),
{
    call_at(DEFAULT_SOCKET_PATH, req)
}

impl Call {
    /// The action this exchange waits on.
    pub fn pending(&self) -> (a: CallAction)
        ensures
            call_action_view(a) == call_pending(self@),
    {
        match self.phase {
            CallPhase::Connect => CallAction::Connect { path: self.path.clone() },
            CallPhase::Encode => CallAction::Encode(copy_request(&self.request)),
            CallPhase::Send => CallAction::Send { line: self.line.clone() },
            CallPhase::Receive => CallAction::ReadLine,
            CallPhase::Decode => CallAction::Decode { text: self.text.clone() },
        }
    }

    fn go(self) -> (r: CallStep)
        ensures
            call_step_is(r, CallNext::Go(self@)),
    {
        let a = self.pending();
        CallStep::Continue(self, a)
    }

    /// Passes the outcome of the pending action to the exchange.
    pub fn step(self, o: CallOutcome) -> (r: CallStep)
        ensures
            call_step_is(r, call_next(self@, o)),
    {
        match (self.phase, o) {
            (CallPhase::Connect, CallOutcome::Connected(res)) => match res {
                Err(e) => CallStep::Finish(Err(IpcError::Io(e))),
                Ok(_) => {
                    let mut c = self;
                    c.phase = CallPhase::Encode;
                    c.go()
                },
            },
            (CallPhase::Encode, CallOutcome::Encoded(res)) => match res {
                Err(e) => CallStep::Finish(Err(IpcError::Json(e))),
                Ok(s) => {
                    let mut c = self;
                    c.line = frame_line(s.as_str());
                    c.phase = CallPhase::Send;
                    c.go()
                },
            },
            (CallPhase::Send, CallOutcome::Sent(res)) => match res {
                Err(e) => CallStep::Finish(Err(IpcError::Io(e))),
                Ok(_) => {
                    let mut c = self;
                    c.phase = CallPhase::Receive;
                    c.go()
                },
            },
            (CallPhase::Receive, CallOutcome::LineRead(res)) => match res {
                Err(e) => CallStep::Finish(Err(IpcError::Io(e))),
                Ok((n, buf)) => {
                    if n == 0 {
                        CallStep::Finish(Err(IpcError::ServerClosed))
                    } else {
                        let mut c = self;
                        c.text = string_of(&trimmed(&chars_of(buf.as_str())));
                        c.phase = CallPhase::Decode;
                        c.go()
                    }
                },
            },
            (CallPhase::Decode, CallOutcome::Decoded(res)) => match res {
                Err(e) => CallStep::Finish(Err(IpcError::Json(e))),
                Ok(r) => CallStep::Finish(Ok(r)),
            },
            (_, _) => self.go(),
        }
    }
}

} // verus!
