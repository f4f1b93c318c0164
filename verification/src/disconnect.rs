//! Intentional disconnect, as a state machine: the tunnel comes down with
//! the tool that owns it, the active profile is forgotten, and the kill
//! switch is removed — an intentional disconnect is what lifts the lock.
use vstd::prelude::*;

use crate::killswitch::IFACE;
use crate::process::Invocation;
use crate::protocol::Response;
use crate::status::{active_tool, tool_for};
use crate::text::{append_str, chars_of, opt_view, owned, string_of, string_views};

verus! {

/// What the helper is asked to do next.
pub enum DisconnectAction {
    /// Tell whether the tunnel interface exists.
    CheckInterface,
    /// Read the active-tool file.
    ReadActiveTool,
    /// Run a command and report its standard output or failure message.
    Run(Invocation),
    /// Remove the active-profile file (failures are ignored).
    ForgetActiveProfile,
    /// Remove the kill switch if it is installed.
    RemoveLock,
}

/// The outcome of an action.
pub enum DisconnectOutcome {
    Interface(bool),
    ToolFile(Option<String>),
    Ran(Result<String, String>),
    Completed,
}

#[derive(Clone, Copy, PartialEq, Eq, Structural)]
pub enum DisconnectPhase {
    CheckIface,
    ReadTool,
    Down,
    Forget,
    Unlock,
}

/// A disconnect in progress.
pub struct Disconnect {
    phase: DisconnectPhase,
    tool: String,
    warning: Option<String>,
}

pub struct DisconnectView {
    pub phase: DisconnectPhase,
    pub tool: Seq<char>,
    pub warning: Option<Seq<char>>,
}

impl View for Disconnect {
    type V = DisconnectView;

    closed spec fn view(&self) -> DisconnectView {
        DisconnectView { phase: self.phase, tool: self.tool@, warning: opt_view(self.warning) }
    }
}

pub enum DisconnectActionView {
    CheckInterface,
    ReadActiveTool,
    Run(Seq<char>, Seq<Seq<char>>, Option<Seq<char>>),
    ForgetActiveProfile,
    RemoveLock,
}

pub open spec fn disconnect_action_view(a: DisconnectAction) -> DisconnectActionView {
    match a {
        DisconnectAction::CheckInterface => DisconnectActionView::CheckInterface,
        DisconnectAction::ReadActiveTool => DisconnectActionView::ReadActiveTool,
        DisconnectAction::Run(inv) => DisconnectActionView::Run(
            inv.program@,
            string_views(inv.args@),
            opt_view(inv.input),
        ),
        DisconnectAction::ForgetActiveProfile => DisconnectActionView::ForgetActiveProfile,
        DisconnectAction::RemoveLock => DisconnectActionView::RemoveLock,
    }
}

pub open spec fn disconnect_pending(v: DisconnectView) -> DisconnectActionView {
    match v.phase {
        DisconnectPhase::CheckIface => DisconnectActionView::CheckInterface,
        DisconnectPhase::ReadTool => DisconnectActionView::ReadActiveTool,
        DisconnectPhase::Down => DisconnectActionView::Run(
            "timeout"@,
            seq!["10"@, v.tool, "down"@, IFACE@],
            None,
        ),
        DisconnectPhase::Forget => DisconnectActionView::ForgetActiveProfile,
        DisconnectPhase::Unlock => DisconnectActionView::RemoveLock,
    }
}

pub enum DisconnectNext {
    Go(DisconnectView),
    /// The disconnect is over; `None` answers `ok`, a warning answers `err`.
    Done(Option<Seq<char>>),
}

pub open spec fn disconnect_start() -> DisconnectView {
    DisconnectView { phase: DisconnectPhase::CheckIface, tool: seq![], warning: None }
}

/// The transition of a disconnect on an outcome; an outcome that does not
/// answer the pending action leaves it unchanged.
pub open spec fn disconnect_next(v: DisconnectView, o: DisconnectOutcome) -> DisconnectNext {
    match (v.phase, o) {
        (DisconnectPhase::CheckIface, DisconnectOutcome::Interface(up)) => if up {
            DisconnectNext::Go(DisconnectView { phase: DisconnectPhase::ReadTool, ..v })
        } else {
            DisconnectNext::Go(DisconnectView { phase: DisconnectPhase::Forget, ..v })
        },
        (DisconnectPhase::ReadTool, DisconnectOutcome::ToolFile(c)) => DisconnectNext::Go(
            DisconnectView { phase: DisconnectPhase::Down, tool: tool_for(opt_view(c)), ..v },
        ),
        (DisconnectPhase::Down, DisconnectOutcome::Ran(res)) => match res {
            Err(e) => DisconnectNext::Go(
                DisconnectView {
                    phase: DisconnectPhase::Forget,
                    warning: Some(v.tool + " down: "@ + e@),
                    ..v
                },
            ),
            Ok(_) => DisconnectNext::Go(DisconnectView { phase: DisconnectPhase::Forget, ..v }),
        },
        (DisconnectPhase::Forget, DisconnectOutcome::Completed) => DisconnectNext::Go(
            DisconnectView { phase: DisconnectPhase::Unlock, ..v },
        ),
        (DisconnectPhase::Unlock, DisconnectOutcome::Completed) => DisconnectNext::Done(v.warning),
        _ => DisconnectNext::Go(v),
    }
}

pub enum DisconnectStep {
    Continue(Disconnect, DisconnectAction),
    Finish(Response),
}

pub open spec fn disconnect_step_is(r: DisconnectStep, n: DisconnectNext) -> bool {
    match n {
        DisconnectNext::Go(v) => r matches DisconnectStep::Continue(d, a) && d@ == v
            && disconnect_action_view(a) == disconnect_pending(v),
        DisconnectNext::Done(None) => r matches DisconnectStep::Finish(resp) && resp
            is Done,
        DisconnectNext::Done(Some(w)) => r matches DisconnectStep::Finish(resp)
            && resp matches Response::Error { message } && message@ == w,
    }
}

/// Starts an intentional disconnect.
pub fn disconnect() -> (r: DisconnectStep)
    ensures
        disconnect_step_is(r, DisconnectNext::Go(disconnect_start())),
{
    let d = Disconnect { phase: DisconnectPhase::CheckIface, tool: String::new(), warning: None };
    assert(d@ == disconnect_start());
    d.go()
}

impl Disconnect {
    /// The action this disconnect waits on.
    pub fn pending(&self) -> (a: DisconnectAction)
        ensures
            disconnect_action_view(a) == disconnect_pending(self@),
    {
        match self.phase {
            DisconnectPhase::CheckIface => DisconnectAction::CheckInterface,
            DisconnectPhase::ReadTool => DisconnectAction::ReadActiveTool,
            DisconnectPhase::Down => {
                let mut args: Vec<String> = Vec::new();
                args.push(owned("10"));
                args.push(self.tool.clone());
                args.push(owned("down"));
                args.push(owned(IFACE));
                assert(string_views(args@) =~= seq!["10"@, self.tool@, "down"@, IFACE@]);
                DisconnectAction::Run(Invocation { program: owned("timeout"), args, input: None })
            },
            DisconnectPhase::Forget => DisconnectAction::ForgetActiveProfile,
            DisconnectPhase::Unlock => DisconnectAction::RemoveLock,
        }
    }

    fn go(self) -> (r: DisconnectStep)
        ensures
            disconnect_step_is(r, DisconnectNext::Go(self@)),
    {
        let a = self.pending();
        DisconnectStep::Continue(self, a)
    }

    /// Passes the outcome of the pending action to the disconnect.
    pub fn step(self, o: DisconnectOutcome) -> (r: DisconnectStep)
        ensures
            disconnect_step_is(r, disconnect_next(self@, o)),
    {
        match (self.phase, o) {
            (DisconnectPhase::CheckIface, DisconnectOutcome::Interface(up)) => {
                let mut d = self;
                d.phase = if up {
                    DisconnectPhase::ReadTool
                } else {
                    DisconnectPhase::Forget
                };
                d.go()
            },
            (DisconnectPhase::ReadTool, DisconnectOutcome::ToolFile(c)) => {
                let mut d = self;
                d.tool = owned(active_tool(&c));
                d.phase = DisconnectPhase::Down;
                d.go()
            },
            (DisconnectPhase::Down, DisconnectOutcome::Ran(res)) => {
                let mut d = self;
                match res {
                    Err(e) => {
                        let mut m = chars_of(d.tool.as_str());
                        append_str(&mut m, " down: ");
                        append_str(&mut m, e.as_str());
                        d.warning = Some(string_of(&m));
                    },
                    Ok(_) => {},
                }
                d.phase = DisconnectPhase::Forget;
                d.go()
            },
            (DisconnectPhase::Forget, DisconnectOutcome::Completed) => {
                let mut d = self;
                d.phase = DisconnectPhase::Unlock;
                d.go()
            },
            (DisconnectPhase::Unlock, DisconnectOutcome::Completed) => match self.warning {
                None => DisconnectStep::Finish(Response::Done),
                Some(w) => DisconnectStep::Finish(Response::Error { message: w }),
            },
            (_, _) => self.go(),
        }
    }
}

/// The command that brings the tunnel down with its own tool
/// (`<tool> down orion0`), as the emergency unlock and a reconnect do.
pub fn bring_down(tool: &str) -> (r: Invocation)
    ensures
        r.program@ == tool@,
        string_views(r.args@) == seq!["down"@, IFACE@],
        r.input is None,
{
    let mut args: Vec<String> = Vec::new();
    args.push(owned("down"));
    args.push(owned(IFACE));
    assert(string_views(args@) =~= seq!["down"@, IFACE@]);
    Invocation { program: owned(tool), args, input: None }
}

// ---------------------------------------------------------------- laws

/// The state of a disconnect after the outcomes `os`.
pub open spec fn disconnect_run(os: Seq<DisconnectOutcome>) -> DisconnectNext
    decreases os.len(),
{
    if os.len() == 0 {
        DisconnectNext::Go(disconnect_start())
    } else {
        match disconnect_run(os.drop_last()) {
            DisconnectNext::Go(v) => disconnect_next(v, os.last()),
            n => n,
        }
    }
}

/// An intentional disconnect lifts the kill switch: it ends only by
/// completing the removal of the kill switch, right after asking for it.
pub proof fn lemma_disconnect_removes_lock(os: Seq<DisconnectOutcome>)
    requires
        os.len() > 0,
        disconnect_run(os) is Done,
        disconnect_run(os.drop_last()) is Go,
    ensures
        disconnect_pending(disconnect_run(os.drop_last())->Go_0) == DisconnectActionView::RemoveLock,
        os.last() is Completed,
{
}

} // verus!
