//! Ghost "new identity": `SIGNAL NEWNYM` over the node's Tor control port,
//! reachable only through the tunnel, as a state machine. The helper opens
//! the connection and exchanges lines; the machine decides what to send and
//! whether Tor accepted it.
use vstd::prelude::*;

use crate::protocol::Response;
use crate::text::{append_str, chars_of, has_prefix, owned, starts_with, string_of, trim, trimmed};

verus! {

/// The node's Tor control port, inside the tunnel.
pub const CONTROL_ADDR: &'static str = "10.66.0.1:9051";

/// The control-port passphrase.
pub const CONTROL_PASS_FILE: &'static str = "/etc/orion/control_pass";

/// What the helper is asked to do next.
pub enum IdentityAction {
    /// Tell whether the tunnel interface exists.
    CheckInterface,
    /// Read the control-port passphrase file.
    ReadPassword,
    /// Open the control connection.
    OpenControl { addr: String },
    /// Write the line, then read one reply line.
    Exchange { line: String },
}

/// Why the control connection could not be opened.
pub enum OpenFailure {
    /// The connection failed; the error text.
    Unreachable(String),
    /// The stream could not be duplicated for reading; the error text.
    Duplicate(String),
}

/// The answer to one exchange.
pub enum ControlReply {
    /// Writing the line failed.
    WriteFailed,
    /// The connection was closed before a reply.
    Closed,
    /// The reply line, as read (with its line ending).
    Line(String),
    /// Reading failed; the error text.
    ReadFailed(String),
}

/// The outcome of an action.
pub enum IdentityOutcome {
    Interface(bool),
    Password(Option<String>),
    Opened(Result<(), OpenFailure>),
    Replied(ControlReply),
}

#[derive(Clone, Copy, PartialEq, Eq, Structural)]
pub enum IdentityPhase {
    CheckIface,
    ReadPass,
    Open,
    /// Waiting for the reply to the command with this index.
    Command(u8),
}

/// A new-identity request in progress.
pub struct NewIdentity {
    phase: IdentityPhase,
    pass: String,
    accepted: Ghost<Seq<Seq<char>>>,
}

pub struct IdentityView {
    pub phase: IdentityPhase,
    /// The trimmed passphrase.
    pub pass: Seq<char>,
    /// The replies Tor accepted so far.
    pub accepted: Seq<Seq<char>>,
}

impl View for NewIdentity {
    type V = IdentityView;

    closed spec fn view(&self) -> IdentityView {
        IdentityView { phase: self.phase, pass: self.pass@, accepted: self.accepted@ }
    }
}

/// The control command with index `k`: authenticate with the passphrase,
/// request new circuits, and close.
pub open spec fn command(k: int, pass: Seq<char>) -> Seq<char> {
    if k == 0 {
        "AUTHENTICATE \""@ + pass + "\""@
    } else if k == 1 {
        "SIGNAL NEWNYM"@
    } else {
        "QUIT"@
    }
}

pub enum IdentityActionView {
    CheckInterface,
    ReadPassword,
    OpenControl(Seq<char>),
    Exchange(Seq<char>),
}

pub open spec fn identity_action_view(a: IdentityAction) -> IdentityActionView {
    match a {
        IdentityAction::CheckInterface => IdentityActionView::CheckInterface,
        IdentityAction::ReadPassword => IdentityActionView::ReadPassword,
        IdentityAction::OpenControl { addr } => IdentityActionView::OpenControl(addr@),
        IdentityAction::Exchange { line } => IdentityActionView::Exchange(line@),
    }
}

pub open spec fn identity_pending(v: IdentityView) -> IdentityActionView {
    match v.phase {
        IdentityPhase::CheckIface => IdentityActionView::CheckInterface,
        IdentityPhase::ReadPass => IdentityActionView::ReadPassword,
        IdentityPhase::Open => IdentityActionView::OpenControl(CONTROL_ADDR@),
        IdentityPhase::Command(k) => IdentityActionView::Exchange(
            command(k as int, v.pass) + "\r\n"@,
        ),
    }
}

pub enum IdentityNext {
    Go(IdentityView),
    Fail(Seq<char>),
    /// Tor accepted every command; the accepted replies.
    Succeeded(Seq<Seq<char>>),
}

pub open spec fn identity_start() -> IdentityView {
    IdentityView { phase: IdentityPhase::CheckIface, pass: seq![], accepted: seq![] }
}

/// The transition of a new-identity request on an outcome; an outcome that
/// does not answer the pending action leaves it unchanged.
pub open spec fn identity_next(v: IdentityView, o: IdentityOutcome) -> IdentityNext {
    match (v.phase, o) {
        (IdentityPhase::CheckIface, IdentityOutcome::Interface(up)) => if up {
            IdentityNext::Go(IdentityView { phase: IdentityPhase::ReadPass, ..v })
        } else {
            IdentityNext::Fail("tunnel is down; connect before requesting a new identity"@)
        },
        (IdentityPhase::ReadPass, IdentityOutcome::Password(p)) => match p {
            None => IdentityNext::Fail("no control password on file (/etc/orion/control_pass)"@),
            Some(text) => IdentityNext::Go(
                IdentityView { phase: IdentityPhase::Open, pass: trim(text@), ..v },
            ),
        },
        (IdentityPhase::Open, IdentityOutcome::Opened(res)) => match res {
            Err(OpenFailure::Unreachable(e)) => IdentityNext::Fail(
                "control port unreachable: "@ + e@,
            ),
            Err(OpenFailure::Duplicate(e)) => IdentityNext::Fail(e@),
            Ok(_) => IdentityNext::Go(IdentityView { phase: IdentityPhase::Command(0), ..v }),
        },
        (IdentityPhase::Command(k), IdentityOutcome::Replied(reply)) => match reply {
            ControlReply::WriteFailed => IdentityNext::Fail("control connection dropped"@),
            ControlReply::Closed => IdentityNext::Fail("control connection closed"@),
            ControlReply::ReadFailed(e) => IdentityNext::Fail("control read: "@ + e@),
            ControlReply::Line(l) => if has_prefix(l@, "250"@) {
                if k >= 2 {
                    IdentityNext::Succeeded(v.accepted.push(l@))
                } else {
                    IdentityNext::Go(
                        IdentityView {
                            phase: IdentityPhase::Command((k + 1) as u8),
                            accepted: v.accepted.push(l@),
                            ..v
                        },
                    )
                }
            } else {
                IdentityNext::Fail("tor rejected: "@ + trim(l@))
            },
        },
        _ => IdentityNext::Go(v),
    }
}

pub enum IdentityStep {
    Continue(NewIdentity, IdentityAction),
    Finish(Response),
}

pub open spec fn identity_step_is(r: IdentityStep, n: IdentityNext) -> bool {
    match n {
        IdentityNext::Go(v) => r matches IdentityStep::Continue(x, a) && x@ == v
            && identity_action_view(a) == identity_pending(v),
        IdentityNext::Fail(m) => r matches IdentityStep::Finish(resp)
            && resp matches Response::Error { message } && message@ == m,
        IdentityNext::Succeeded(_) => r matches IdentityStep::Finish(resp) && resp is Done,
    }
}

fn fail(m: String) -> (r: IdentityStep)
    ensures
        identity_step_is(r, IdentityNext::Fail(m@)),
{
    IdentityStep::Finish(Response::Error { message: m })
}

/// Starts a new-identity request.
pub fn new_identity() -> (r: IdentityStep)
    ensures
        identity_step_is(r, IdentityNext::Go(identity_start())),
{
    let x = NewIdentity {
        phase: IdentityPhase::CheckIface,
        pass: String::new(),
        accepted: Ghost(Seq::empty()),
    };
    assert(x@ == identity_start());
    x.go()
}

impl NewIdentity {
    #[verifier::type_invariant]
    spec fn well_formed(&self) -> bool {
        self.phase matches IdentityPhase::Command(k) ==> k <= 2
    }

    /// The action this request waits on.
    pub fn pending(&self) -> (a: IdentityAction)
        ensures
            identity_action_view(a) == identity_pending(self@),
    {
        match self.phase {
            IdentityPhase::CheckIface => IdentityAction::CheckInterface,
            IdentityPhase::ReadPass => IdentityAction::ReadPassword,
            IdentityPhase::Open => IdentityAction::OpenControl { addr: owned(CONTROL_ADDR) },
            IdentityPhase::Command(k) => {
                let mut line = if k == 0 {
                    let mut l = chars_of("AUTHENTICATE \"");
                    append_str(&mut l, self.pass.as_str());
                    append_str(&mut l, "\"");
                    l
                } else if k == 1 {
                    chars_of("SIGNAL NEWNYM")
                } else {
                    chars_of("QUIT")
                };
                append_str(&mut line, "\r\n");
                IdentityAction::Exchange { line: string_of(&line) }
            },
        }
    }

    fn go(self) -> (r: IdentityStep)
        ensures
            identity_step_is(r, IdentityNext::Go(self@)),
    {
        let a = self.pending();
        IdentityStep::Continue(self, a)
    }

    fn on_reply(self, k: u8, reply: ControlReply) -> (r: IdentityStep)
        requires
            self.phase == IdentityPhase::Command(k),
            k <= 2,
        ensures
            identity_step_is(r, identity_next(self@, IdentityOutcome::Replied(reply))),
    {
        match reply {
            ControlReply::WriteFailed => fail(owned("control connection dropped")),
            ControlReply::Closed => fail(owned("control connection closed")),
            ControlReply::ReadFailed(e) => {
                let mut m = chars_of("control read: ");
                append_str(&mut m, e.as_str());
                fail(string_of(&m))
            },
            ControlReply::Line(l) => {
                let lv = chars_of(l.as_str());
                if starts_with(&lv, "250") {
                    if k >= 2 {
                        IdentityStep::Finish(Response::Done)
                    } else {
                        let mut x = self;
                        x.accepted = Ghost(x.accepted@.push(l@));
                        x.phase = IdentityPhase::Command(k + 1);
                        x.go()
                    }
                } else {
                    let mut m = chars_of("tor rejected: ");
                    crate::text::append(&mut m, &trimmed(&lv));
                    fail(string_of(&m))
                }
            },
        }
    }

    /// Passes the outcome of the pending action to the request.
    pub fn step(self, o: IdentityOutcome) -> (r: IdentityStep)
        ensures
            identity_step_is(r, identity_next(self@, o)),
    {
        proof {
            use_type_invariant(&self);
        }
        match (self.phase, o) {
            (IdentityPhase::CheckIface, IdentityOutcome::Interface(up)) => {
                if up {
                    let mut x = self;
                    x.phase = IdentityPhase::ReadPass;
                    x.go()
                } else {
                    fail(owned("tunnel is down; connect before requesting a new identity"))
                }
            },
            (IdentityPhase::ReadPass, IdentityOutcome::Password(p)) => match p {
                None => fail(owned("no control password on file (/etc/orion/control_pass)")),
                Some(text) => {
                    let mut x = self;
                    x.pass = string_of(&trimmed(&chars_of(text.as_str())));
                    x.phase = IdentityPhase::Open;
                    x.go()
                },
            },
            (IdentityPhase::Open, IdentityOutcome::Opened(res)) => match res {
                Err(OpenFailure::Unreachable(e)) => {
                    let mut m = chars_of("control port unreachable: ");
                    append_str(&mut m, e.as_str());
                    fail(string_of(&m))
                },
                Err(OpenFailure::Duplicate(e)) => fail(e),
                Ok(_) => {
                    let mut x = self;
                    x.phase = IdentityPhase::Command(0);
                    x.go()
                },
            },
            (IdentityPhase::Command(k), IdentityOutcome::Replied(reply)) => self.on_reply(k, reply),
            (_, _) => self.go(),
        }
    }
}

// ---------------------------------------------------------------- laws

/// The state of a new-identity request after the outcomes `os`.
pub open spec fn identity_run(os: Seq<IdentityOutcome>) -> IdentityNext
    decreases os.len(),
{
    if os.len() == 0 {
        IdentityNext::Go(identity_start())
    } else {
        match identity_run(os.drop_last()) {
            IdentityNext::Go(v) => identity_next(v, os.last()),
            n => n,
        }
    }
}

pub open spec fn all_accepted(s: Seq<Seq<char>>) -> bool {
    forall|i: int| 0 <= i < s.len() ==> has_prefix(#[trigger] s[i], "250"@)
}

pub open spec fn identity_inv(v: IdentityView) -> bool {
    &&& all_accepted(v.accepted)
    &&& match v.phase {
        IdentityPhase::Command(k) => k <= 2 && v.accepted.len() == k,
        _ => v.accepted.len() == 0,
    }
}

proof fn lemma_identity_run_inv(os: Seq<IdentityOutcome>)
    ensures
        identity_run(os) matches IdentityNext::Go(v) ==> identity_inv(v),
        identity_run(os) matches IdentityNext::Succeeded(acc) ==> acc.len() == 3 && all_accepted(
            acc,
        ),
    decreases os.len(),
{
    if os.len() > 0 {
        lemma_identity_run_inv(os.drop_last());
        match identity_run(os.drop_last()) {
            IdentityNext::Go(v) => {
                if let IdentityOutcome::Replied(ControlReply::Line(l)) = os.last() {
                    if v.phase is Command && has_prefix(l@, "250"@) {
                        let acc = v.accepted.push(l@);
                        assert forall|i: int| 0 <= i < acc.len() implies has_prefix(
                            #[trigger] acc[i],
                            "250"@,
                        ) by {
                            if i < v.accepted.len() {
                                assert(acc[i] == v.accepted[i]);
                            }
                        }
                    }
                }
            },
            _ => {},
        }
    }
}

/// `SIGNAL NEWNYM` is sent only after Tor accepted the authentication, and a
/// request answers `ok` only when Tor accepted all three commands.
pub proof fn lemma_newnym_after_authentication(os: Seq<IdentityOutcome>)
    ensures
        identity_run(os) matches IdentityNext::Go(v) ==> (identity_pending(v)
            == IdentityActionView::Exchange("SIGNAL NEWNYM"@ + "\r\n"@) ==> {
            &&& v.accepted.len() == 1
            &&& has_prefix(v.accepted[0], "250"@)
        }),
        identity_run(os) matches IdentityNext::Succeeded(acc) ==> acc.len() == 3 && all_accepted(
            acc,
        ),
{
    lemma_identity_run_inv(os);
    if let IdentityNext::Go(v) = identity_run(os) {
        if let IdentityPhase::Command(k) = v.phase {
            reveal_strlit("AUTHENTICATE \"");
            reveal_strlit("SIGNAL NEWNYM");
            reveal_strlit("QUIT");
            if identity_pending(v) == IdentityActionView::Exchange("SIGNAL NEWNYM"@ + "\r\n"@) {
                let line = command(k as int, v.pass) + "\r\n"@;
                assert(line[0] == ("SIGNAL NEWNYM"@ + "\r\n"@)[0]);
                if k == 0 {
                    assert(line[0] == 'A');
                } else if k == 2 {
                    assert(line[0] == 'Q');
                }
            }
        }
    }
}

} // verus!
