//! Connecting a profile, as a state machine: the helper performs each
//! action (checking the interface, reading files, resolving, running
//! commands) and hands back its outcome; the machine decides what comes next.
//! The kill switch always goes up before the tunnel, and a bring-up that
//! fails once the kill switch is up (the configuration cannot be read or
//! written, or the tunnel does not come up) has the kill switch rolled back
//! before the attempt answers with its error.
use vstd::prelude::*;

use crate::killswitch::{
    Address, IFACE, Resolved, apply_lock, endpoint_of, first_v4, first_v6, lock_script,
    pick_addresses, resolve_failure, split_endpoint,
};
use crate::process::Invocation;
use crate::profile::{load_profile, profile_file, profile_path, read_failure, scan_profile, valid_profile_name};
use crate::protocol::Response;
use crate::text::{append_str, chars_of, is_blank, opt_view, owned, string_of, string_views, trim};
use crate::wgconf::{build_wg_conf, wg_conf};

verus! {

/// Tunnel configuration of plain WireGuard profiles.
pub const WG_CONF: &'static str = "/etc/wireguard/orion0.conf";

/// Tunnel configuration of AmneziaWG profiles.
pub const AWG_CONF: &'static str = "/etc/amnezia/amneziawg/orion0.conf";

/// What the helper is asked to do next.
pub enum ConnectAction {
    /// Tell whether the tunnel interface exists.
    CheckInterface,
    /// Bring the running tunnel down with its tool and forget the active
    /// profile and tool.
    BringDownTunnel,
    /// Read a profile file.
    ReadProfile { path: String },
    /// Resolve the endpoint host.
    Resolve { host: String, port: u16 },
    /// Run a command and report its standard output or failure message.
    Run(Invocation),
    /// Tell whether resolvconf or systemd-resolved can apply `DNS` lines.
    ProbeDnsHook,
    /// Write the tunnel configuration (creating its directory) with mode 0600.
    WriteConf { path: String, contents: String },
    /// Remove the kill switch if it is installed.
    RemoveLock,
    /// Record the active profile and tool family (failures are ignored).
    RecordActive { profile: String, tool: String },
    /// Observe the machine and report its status.
    ReportStatus,
}

/// Why writing the tunnel configuration failed.
pub enum WriteFailure {
    /// The file could not be written; the error text.
    Write(String),
    /// Its mode could not be set; the error text.
    Permissions(String),
}

/// The outcome of an action.
pub enum ConnectOutcome {
    Interface(bool),
    Completed,
    Text(Option<String>),
    Addresses(Result<Vec<Address>, String>),
    Ran(Result<String, String>),
    DnsHook(bool),
    Written(Result<(), WriteFailure>),
    Status(Response),
}

/// Where a connection attempt stands.
#[derive(Clone, Copy, PartialEq, Eq, Structural)]
pub enum Phase {
    CheckIface,
    TearDown,
    ReadProfile,
    Resolve,
    Lock,
    ReadConf,
    ProbeDns,
    Write,
    Up,
    RollbackDown,
    Unlock,
    Record,
    Report,
}

/// Steps of a connection attempt that the fail-closed rules speak of.
pub enum Milestone {
    LockInstalled,
    ConfigFailed,
    TunnelUpFailed,
}

/// A connection attempt in progress.
pub struct Connect {
    phase: Phase,
    name: String,
    path: String,
    host: String,
    awg: bool,
    ep: Resolved,
    conf_text: String,
    conf: String,
    message: String,
    history: Ghost<Seq<Milestone>>,
}

/// The state of a connection attempt, as texts.
pub struct ConnectView {
    pub phase: Phase,
    pub name: Seq<char>,
    pub path: Seq<char>,
    pub host: Seq<char>,
    pub port: int,
    pub awg: bool,
    pub v4: Option<Seq<char>>,
    pub v6: Option<Seq<char>>,
    pub conf_text: Seq<char>,
    pub conf: Seq<char>,
    pub message: Seq<char>,
    pub history: Seq<Milestone>,
}

impl View for Connect {
    type V = ConnectView;

    closed spec fn view(&self) -> ConnectView {
        ConnectView {
            phase: self.phase,
            name: self.name@,
            path: self.path@,
            host: self.host@,
            port: self.ep.port as int,
            awg: self.awg,
            v4: opt_view(self.ep.v4),
            v6: opt_view(self.ep.v6),
            conf_text: self.conf_text@,
            conf: self.conf@,
            message: self.message@,
            history: self.history@,
        }
    }
}

/// An action, as texts.
pub enum ActionView {
    CheckInterface,
    BringDownTunnel,
    ReadProfile(Seq<char>),
    Resolve(Seq<char>, int),
    Run(Seq<char>, Seq<Seq<char>>, Option<Seq<char>>),
    ProbeDnsHook,
    WriteConf(Seq<char>, Seq<char>),
    RemoveLock,
    RecordActive(Seq<char>, Seq<char>),
    ReportStatus,
}

pub open spec fn action_view(a: ConnectAction) -> ActionView {
    match a {
        ConnectAction::CheckInterface => ActionView::CheckInterface,
        ConnectAction::BringDownTunnel => ActionView::BringDownTunnel,
        ConnectAction::ReadProfile { path } => ActionView::ReadProfile(path@),
        ConnectAction::Resolve { host, port } => ActionView::Resolve(host@, port as int),
        ConnectAction::Run(inv) => ActionView::Run(
            inv.program@,
            string_views(inv.args@),
            opt_view(inv.input),
        ),
        ConnectAction::ProbeDnsHook => ActionView::ProbeDnsHook,
        ConnectAction::WriteConf { path, contents } => ActionView::WriteConf(path@, contents@),
        ConnectAction::RemoveLock => ActionView::RemoveLock,
        ConnectAction::RecordActive { profile, tool } => ActionView::RecordActive(
            profile@,
            tool@,
        ),
        ConnectAction::ReportStatus => ActionView::ReportStatus,
    }
}

/// The `*-quick` tool of a profile.
pub open spec fn quick_tool(awg: bool) -> Seq<char> {
    if awg {
        "awg-quick"@
    } else {
        "wg-quick"@
    }
}

/// Tool family recorded for a profile.
pub open spec fn tool_tag(awg: bool) -> Seq<char> {
    if awg {
        "awg"@
    } else {
        "wg"@
    }
}

/// Where the tunnel configuration of a profile goes.
pub open spec fn conf_path(awg: bool) -> Seq<char> {
    if awg {
        AWG_CONF@
    } else {
        WG_CONF@
    }
}

/// `timeout 25 <tool> up orion0`
pub open spec fn tunnel_up(awg: bool) -> ActionView {
    ActionView::Run("timeout"@, seq!["25"@, quick_tool(awg), "up"@, IFACE@], None)
}

/// `timeout 10 <tool> down orion0`
pub open spec fn tunnel_down(awg: bool) -> ActionView {
    ActionView::Run("timeout"@, seq!["10"@, quick_tool(awg), "down"@, IFACE@], None)
}

/// The action a connection attempt waits on.
pub open spec fn pending_view(v: ConnectView) -> ActionView {
    match v.phase {
        Phase::CheckIface => ActionView::CheckInterface,
        Phase::TearDown => ActionView::BringDownTunnel,
        Phase::ReadProfile => ActionView::ReadProfile(v.path),
        Phase::Resolve => ActionView::Resolve(v.host, v.port),
        Phase::Lock => ActionView::Run(
            "nft"@,
            seq!["-f"@, "-"@],
            Some(lock_script(v.v4, v.v6, v.port as nat)),
        ),
        Phase::ReadConf => ActionView::ReadProfile(v.path),
        Phase::ProbeDns => ActionView::ProbeDnsHook,
        Phase::Write => ActionView::WriteConf(conf_path(v.awg), v.conf),
        Phase::Up => tunnel_up(v.awg),
        Phase::RollbackDown => tunnel_down(v.awg),
        Phase::Unlock => ActionView::RemoveLock,
        Phase::Record => ActionView::RecordActive(v.name, tool_tag(v.awg)),
        Phase::Report => ActionView::ReportStatus,
    }
}

/// What follows a step.
pub enum Next {
    /// The attempt goes on in this state.
    Go(ConnectView),
    /// The attempt ends with this error message.
    Fail(Seq<char>),
    /// The attempt ends with this status report.
    Report(Response),
}

/// The state that rolls the kill switch back before the attempt fails with
/// `message`, when the tunnel configuration could not be read or written.
pub open spec fn config_rollback(v: ConnectView, message: Seq<char>) -> Next {
    Next::Go(
        ConnectView {
            phase: Phase::Unlock,
            message,
            history: v.history.push(Milestone::ConfigFailed),
            ..v
        },
    )
}

/// The state after the interface check (or teardown): load the profile.
pub open spec fn load_next(v: ConnectView) -> Next {
    if valid_profile_name(v.name) {
        Next::Go(ConnectView { phase: Phase::ReadProfile, path: profile_file(v.name), ..v })
    } else {
        Next::Fail("invalid profile name"@)
    }
}

/// The transition of a connection attempt on an outcome. An outcome that
/// does not answer the pending action leaves the attempt unchanged.
pub open spec fn next_view(v: ConnectView, o: ConnectOutcome) -> Next {
    match (v.phase, o) {
        (Phase::CheckIface, ConnectOutcome::Interface(up)) => if up {
            Next::Go(ConnectView { phase: Phase::TearDown, ..v })
        } else {
            load_next(v)
        },
        (Phase::TearDown, ConnectOutcome::Completed) => load_next(v),
        (Phase::ReadProfile, ConnectOutcome::Text(t)) => match t {
            None => Next::Fail("cannot read "@ + v.path),
            Some(text) => match scan_profile(text@).endpoint {
                None => Next::Fail("profile has no Endpoint line"@),
                Some(spec) => match endpoint_of(spec) {
                    Err(e) => Next::Fail(e),
                    Ok((host, port)) => Next::Go(
                        ConnectView {
                            phase: Phase::Resolve,
                            host,
                            port,
                            awg: scan_profile(text@).awg,
                            ..v
                        },
                    ),
                },
            },
        },
        (Phase::Resolve, ConnectOutcome::Addresses(res)) => match res {
            Err(d) => Next::Fail("cannot resolve "@ + v.host + ": "@ + d@),
            Ok(list) => if first_v4(list@) is None && first_v6(list@) is None {
                Next::Fail("no addresses for "@ + v.host)
            } else {
                Next::Go(
                    ConnectView {
                        phase: Phase::Lock,
                        v4: first_v4(list@),
                        v6: first_v6(list@),
                        ..v
                    },
                )
            },
        },
        (Phase::Lock, ConnectOutcome::Ran(res)) => match res {
            Err(e) => Next::Fail(e@),
            Ok(_) => Next::Go(
                ConnectView {
                    phase: Phase::ReadConf,
                    history: v.history.push(Milestone::LockInstalled),
                    ..v
                },
            ),
        },
        (Phase::ReadConf, ConnectOutcome::Text(t)) => match t {
            None => config_rollback(v, "cannot read "@ + v.path),
            Some(text) => Next::Go(ConnectView { phase: Phase::ProbeDns, conf_text: text@, ..v }),
        },
        (Phase::ProbeDns, ConnectOutcome::DnsHook(hook)) => Next::Go(
            ConnectView { phase: Phase::Write, conf: wg_conf(v.conf_text, hook), ..v },
        ),
        (Phase::Write, ConnectOutcome::Written(res)) => match res {
            Err(WriteFailure::Write(d)) => config_rollback(
                v,
                "write "@ + conf_path(v.awg) + ": "@ + d@,
            ),
            Err(WriteFailure::Permissions(d)) => config_rollback(v, d@),
            Ok(_) => Next::Go(ConnectView { phase: Phase::Up, ..v }),
        },
        (Phase::Up, ConnectOutcome::Ran(res)) => match res {
            Err(e) => Next::Go(
                ConnectView {
                    phase: Phase::RollbackDown,
                    message: quick_tool(v.awg) + " up failed: "@ + e@,
                    history: v.history.push(Milestone::TunnelUpFailed),
                    ..v
                },
            ),
            Ok(_) => Next::Go(ConnectView { phase: Phase::Record, ..v }),
        },
        (Phase::RollbackDown, ConnectOutcome::Ran(_)) => Next::Go(
            ConnectView { phase: Phase::Unlock, ..v },
        ),
        (Phase::Unlock, ConnectOutcome::Completed) => Next::Fail(v.message),
        (Phase::Record, ConnectOutcome::Completed) => Next::Go(
            ConnectView { phase: Phase::Report, ..v },
        ),
        (Phase::Report, ConnectOutcome::Status(r)) => Next::Report(r),
        _ => Next::Go(v),
    }
}

/// The first state of an attempt to connect the profile `name`.
pub open spec fn start_view(name: Seq<char>) -> Next {
    if trim(name).len() == 0 {
        Next::Fail("no profile selected"@)
    } else {
        Next::Go(
            ConnectView {
                phase: Phase::CheckIface,
                name,
                path: seq![],
                host: seq![],
                port: 0,
                awg: false,
                v4: None,
                v6: None,
                conf_text: seq![],
                conf: seq![],
                message: seq![],
                history: seq![],
            },
        )
    }
}

/// The result of a step of the machine.
pub enum ConnectStep {
    /// Perform the action, then pass its outcome to the attempt.
    Continue(Connect, ConnectAction),
    /// The attempt is over; this is the answer to the connect request.
    Finish(Response),
}

/// A step agrees with the transition `n`.
pub open spec fn step_is(r: ConnectStep, n: Next) -> bool {
    match n {
        Next::Go(v) => r matches ConnectStep::Continue(c, a) && c@ == v && action_view(a)
            == pending_view(v),
        Next::Fail(m) => r matches ConnectStep::Finish(resp) && resp matches Response::Error {
            message,
        } && message@ == m,
        Next::Report(x) => r matches ConnectStep::Finish(resp) && resp == x,
    }
}

fn fail(m: String) -> (r: ConnectStep)
    ensures
        step_is(r, Next::Fail(m@)),
{
    ConnectStep::Finish(Response::Error { message: m })
}

fn string_seq(a: &str, b: &str, c: &str, d: &str) -> (r: Vec<String>)
    ensures
        string_views(r@) == seq![a@, b@, c@, d@],
{
    let mut v: Vec<String> = Vec::new();
    v.push(owned(a));
    v.push(owned(b));
    v.push(owned(c));
    v.push(owned(d));
    assert(string_views(v@) =~= seq![a@, b@, c@, d@]);
    v
}

fn tool_of(awg: bool) -> (r: &'static str)
    ensures
        r@ == quick_tool(awg),
{
    if awg {
        "awg-quick"
    } else {
        "wg-quick"
    }
}

fn conf_path_of(awg: bool) -> (r: &'static str)
    ensures
        r@ == conf_path(awg),
{
    if awg {
        AWG_CONF
    } else {
        WG_CONF
    }
}

/// Starts an attempt to connect the profile `name`: a blank name is refused
/// at once, otherwise the attempt begins by checking the tunnel interface.
pub fn connect(name: &str) -> (r: ConnectStep)
    ensures
        step_is(r, start_view(name@)),
{
    if is_blank(&chars_of(name)) {
        return fail(owned("no profile selected"));
    }
    let c = Connect {
        phase: Phase::CheckIface,
        name: owned(name),
        path: String::new(),
        host: String::new(),
        awg: false,
        ep: Resolved { v4: None, v6: None, port: 0 },
        conf_text: String::new(),
        conf: String::new(),
        message: String::new(),
        history: Ghost(Seq::empty()),
    };
    let a = c.pending();
    assert(c@ == ConnectView {
        phase: Phase::CheckIface,
        name: name@,
        path: seq![],
        host: seq![],
        port: 0,
        awg: false,
        v4: None,
        v6: None,
        conf_text: seq![],
        conf: seq![],
        message: seq![],
        history: seq![],
    });
    ConnectStep::Continue(c, a)
}

impl Connect {
    /// The action this attempt waits on.
    pub fn pending(&self) -> (a: ConnectAction)
        ensures
            action_view(a) == pending_view(self@),
    {
        match self.phase {
            Phase::CheckIface => ConnectAction::CheckInterface,
            Phase::TearDown => ConnectAction::BringDownTunnel,
            Phase::ReadProfile => ConnectAction::ReadProfile { path: self.path.clone() },
            Phase::Resolve => ConnectAction::Resolve { host: self.host.clone(), port: self.ep.port },
            Phase::Lock => ConnectAction::Run(apply_lock(&self.ep)),
            Phase::ReadConf => ConnectAction::ReadProfile { path: self.path.clone() },
            Phase::ProbeDns => ConnectAction::ProbeDnsHook,
            Phase::Write => ConnectAction::WriteConf {
                path: owned(conf_path_of(self.awg)),
                contents: self.conf.clone(),
            },
            Phase::Up => ConnectAction::Run(
                Invocation {
                    program: owned("timeout"),
                    args: string_seq("25", tool_of(self.awg), "up", IFACE),
                    input: None,
                },
            ),
            Phase::RollbackDown => ConnectAction::Run(
                Invocation {
                    program: owned("timeout"),
                    args: string_seq("10", tool_of(self.awg), "down", IFACE),
                    input: None,
                },
            ),
            Phase::Unlock => ConnectAction::RemoveLock,
            Phase::Record => ConnectAction::RecordActive {
                profile: self.name.clone(),
                tool: owned(
                    if self.awg {
                        "awg"
                    } else {
                        "wg"
                    },
                ),
            },
            Phase::Report => ConnectAction::ReportStatus,
        }
    }

    fn go(self) -> (r: ConnectStep)
        ensures
            step_is(r, Next::Go(self@)),
    {
        let a = self.pending();
        ConnectStep::Continue(self, a)
    }

    fn roll_back(self, m: String) -> (r: ConnectStep)
        ensures
            step_is(r, config_rollback(self@, m@)),
    {
        let mut c = self;
        c.phase = Phase::Unlock;
        c.message = m;
        c.history = Ghost(c.history@.push(Milestone::ConfigFailed));
        c.go()
    }

    fn load(self) -> (r: ConnectStep)
        ensures
            step_is(r, load_next(self@)),
    {
        match profile_path(self.name.as_str()) {
            Ok(p) => {
                let mut c = self;
                c.path = p;
                c.phase = Phase::ReadProfile;
                c.go()
            },
            Err(e) => fail(e),
        }
    }

    fn on_profile_text(self, t: Option<String>) -> (r: ConnectStep)
        requires
            self.phase == Phase::ReadProfile,
            self.path@ == profile_file(self.name@),
            valid_profile_name(self.name@),
        ensures
            step_is(r, next_view(self@, ConnectOutcome::Text(t))),
    {
        match t {
            None => fail(read_failure(self.path.as_str())),
            Some(text) => {
                let p = match load_profile(self.name.as_str(), text.as_str()) {
                    Ok(p) => p,
                    Err(e) => {
                        return fail(e);
                    },
                };
                match p.endpoint {
                    None => fail(owned("profile has no Endpoint line")),
                    Some(spec) => match split_endpoint(spec.as_str()) {
                        Err(e) => fail(e),
                        Ok((host, port)) => {
                            let mut c = self;
                            c.phase = Phase::Resolve;
                            c.host = host;
                            c.ep.port = port;
                            c.awg = p.awg;
                            c.go()
                        },
                    },
                }
            },
        }
    }

    fn on_addresses(self, res: Result<Vec<Address>, String>) -> (r: ConnectStep)
        requires
            self.phase == Phase::Resolve,
        ensures
            step_is(r, next_view(self@, ConnectOutcome::Addresses(res))),
    {
        match res {
            Err(d) => fail(resolve_failure(self.host.as_str(), d.as_str())),
            Ok(list) => match pick_addresses(self.host.as_str(), self.ep.port, &list) {
                Err(e) => fail(e),
                Ok(ep) => {
                    let mut c = self;
                    c.phase = Phase::Lock;
                    c.ep = ep;
                    c.go()
                },
            },
        }
    }

    fn on_written(self, res: Result<(), WriteFailure>) -> (r: ConnectStep)
        requires
            self.phase == Phase::Write,
        ensures
            step_is(r, next_view(self@, ConnectOutcome::Written(res))),
    {
        match res {
            Err(WriteFailure::Write(d)) => {
                let mut m = chars_of("write ");
                append_str(&mut m, conf_path_of(self.awg));
                append_str(&mut m, ": ");
                append_str(&mut m, d.as_str());
                self.roll_back(string_of(&m))
            },
            Err(WriteFailure::Permissions(d)) => self.roll_back(d),
            Ok(_) => {
                let mut c = self;
                c.phase = Phase::Up;
                c.go()
            },
        }
    }

    /// Passes the outcome of the pending action to the attempt.
    pub fn step(self, o: ConnectOutcome) -> (r: ConnectStep)
        ensures
            step_is(r, next_view(self@, o)),
    {
        proof {
            use_type_invariant(&self);
        }
        match (self.phase, o) {
            (Phase::CheckIface, ConnectOutcome::Interface(up)) => {
                if up {
                    let mut c = self;
                    c.phase = Phase::TearDown;
                    c.go()
                } else {
                    self.load()
                }
            },
            (Phase::TearDown, ConnectOutcome::Completed) => self.load(),
            (Phase::ReadProfile, ConnectOutcome::Text(t)) => self.on_profile_text(t),
            (Phase::Resolve, ConnectOutcome::Addresses(res)) => self.on_addresses(res),
            (Phase::Lock, ConnectOutcome::Ran(res)) => match res {
                Err(e) => fail(e),
                Ok(_) => {
                    let mut c = self;
                    c.phase = Phase::ReadConf;
                    c.history = Ghost(c.history@.push(Milestone::LockInstalled));
                    c.go()
                },
            },
            (Phase::ReadConf, ConnectOutcome::Text(t)) => match t {
                None => {
                    let m = read_failure(self.path.as_str());
                    self.roll_back(m)
                },
                Some(text) => {
                    let mut c = self;
                    c.phase = Phase::ProbeDns;
                    c.conf_text = text;
                    c.go()
                },
            },
            (Phase::ProbeDns, ConnectOutcome::DnsHook(hook)) => {
                let mut c = self;
                c.conf = build_wg_conf(c.conf_text.as_str(), hook);
                c.phase = Phase::Write;
                c.go()
            },
            (Phase::Write, ConnectOutcome::Written(res)) => self.on_written(res),
            (Phase::Up, ConnectOutcome::Ran(res)) => match res {
                Err(e) => {
                    let mut m = chars_of(tool_of(self.awg));
                    append_str(&mut m, " up failed: ");
                    append_str(&mut m, e.as_str());
                    let mut c = self;
                    c.phase = Phase::RollbackDown;
                    c.message = string_of(&m);
                    c.history = Ghost(c.history@.push(Milestone::TunnelUpFailed));
                    c.go()
                },
                Ok(_) => {
                    let mut c = self;
                    c.phase = Phase::Record;
                    c.go()
                },
            },
            (Phase::RollbackDown, ConnectOutcome::Ran(_)) => {
                let mut c = self;
                c.phase = Phase::Unlock;
                c.go()
            },
            (Phase::Unlock, ConnectOutcome::Completed) => fail(self.message),
            (Phase::Record, ConnectOutcome::Completed) => {
                let mut c = self;
                c.phase = Phase::Report;
                c.go()
            },
            (Phase::Report, ConnectOutcome::Status(r)) => ConnectStep::Finish(r),
            (_, _) => self.go(),
        }
    }

    #[verifier::type_invariant]
    spec fn well_formed(&self) -> bool {
        &&& self.phase == Phase::ReadProfile ==> valid_profile_name(self.name@) && self.path@
            == profile_file(self.name@)
    }
}

// ---------------------------------------------------------------- laws

/// The state of an attempt to connect `name` once the helper has answered
/// its actions with the outcomes `os`, in order (outcomes after the end are
/// ignored).
pub open spec fn run(name: Seq<char>, os: Seq<ConnectOutcome>) -> Next
    decreases os.len(),
{
    if os.len() == 0 {
        start_view(name)
    } else {
        match run(name, os.drop_last()) {
            Next::Go(v) => next_view(v, os.last()),
            n => n,
        }
    }
}

pub open spec fn after_lock(p: Phase) -> bool {
    ||| p == Phase::ReadConf
    ||| p == Phase::ProbeDns
    ||| p == Phase::Write
    ||| p == Phase::Up
    ||| p == Phase::RollbackDown
    ||| p == Phase::Unlock
    ||| p == Phase::Record
    ||| p == Phase::Report
}

/// What every state of an attempt satisfies.
pub open spec fn attempt_inv(v: ConnectView) -> bool {
    &&& after_lock(v.phase) ==> v.history.contains(Milestone::LockInstalled)
    &&& !after_lock(v.phase) ==> v.history.len() == 0
    &&& v.phase == Phase::RollbackDown ==> v.history.contains(Milestone::TunnelUpFailed)
    &&& v.phase == Phase::Unlock ==> {
        ||| v.history.contains(Milestone::TunnelUpFailed)
        ||| v.history.contains(Milestone::ConfigFailed)
    }
}

proof fn lemma_push_keeps(h: Seq<Milestone>, m: Milestone, x: Milestone)
    requires
        h.contains(x) || m == x,
    ensures
        h.push(m).contains(x),
{
    if h.contains(x) {
        let i = choose|i: int| 0 <= i < h.len() && h[i] == x;
        assert(h.push(m)[i] == x);
    } else {
        assert(h.push(m)[h.len() as int] == x);
    }
}

proof fn lemma_next_inv(v: ConnectView, o: ConnectOutcome)
    requires
        attempt_inv(v),
    ensures
        next_view(v, o) matches Next::Go(w) ==> attempt_inv(w),
{
    match (v.phase, o) {
        (Phase::Lock, ConnectOutcome::Ran(Ok(_))) => {
            lemma_push_keeps(v.history, Milestone::LockInstalled, Milestone::LockInstalled);
        },
        (Phase::Up, ConnectOutcome::Ran(Err(_))) => {
            lemma_push_keeps(v.history, Milestone::TunnelUpFailed, Milestone::LockInstalled);
            lemma_push_keeps(v.history, Milestone::TunnelUpFailed, Milestone::TunnelUpFailed);
        },
        (Phase::ReadConf, ConnectOutcome::Text(None)) => {
            lemma_push_keeps(v.history, Milestone::ConfigFailed, Milestone::LockInstalled);
            lemma_push_keeps(v.history, Milestone::ConfigFailed, Milestone::ConfigFailed);
        },
        (Phase::Write, ConnectOutcome::Written(Err(_))) => {
            lemma_push_keeps(v.history, Milestone::ConfigFailed, Milestone::LockInstalled);
            lemma_push_keeps(v.history, Milestone::ConfigFailed, Milestone::ConfigFailed);
        },
        _ => {},
    }
}

proof fn lemma_run_inv(name: Seq<char>, os: Seq<ConnectOutcome>)
    ensures
        run(name, os) matches Next::Go(v) ==> attempt_inv(v),
    decreases os.len(),
{
    if os.len() > 0 {
        lemma_run_inv(name, os.drop_last());
        if let Next::Go(v) = run(name, os.drop_last()) {
            lemma_next_inv(v, os.last());
        }
    }
}

proof fn lemma_only_up_brings_up(v: ConnectView)
    ensures
        pending_view(v) == tunnel_up(v.awg) ==> v.phase == Phase::Up,
{
    reveal_strlit("nft");
    reveal_strlit("timeout");
    reveal_strlit("10");
    reveal_strlit("25");
    if v.phase == Phase::Lock {
        assert("nft"@[0] != "timeout"@[0]);
    }
    if v.phase == Phase::RollbackDown {
        assert(tunnel_down(v.awg) != tunnel_up(v.awg)) by {
            let a: Seq<Seq<char>> = seq!["10"@, quick_tool(v.awg), "down"@, IFACE@];
            let b: Seq<Seq<char>> = seq!["25"@, quick_tool(v.awg), "up"@, IFACE@];
            assert(a[0][0] != b[0][0]);
        }
    }
}

/// Fail-closed order: whenever an attempt is about to bring the tunnel up,
/// it has already installed the kill switch.
pub proof fn lemma_lock_before_tunnel(name: Seq<char>, os: Seq<ConnectOutcome>)
    ensures
        run(name, os) matches Next::Go(v) ==> (pending_view(v) == tunnel_up(v.awg)
            ==> v.history.contains(Milestone::LockInstalled)),
{
    lemma_run_inv(name, os);
    if let Next::Go(v) = run(name, os) {
        lemma_only_up_brings_up(v);
    }
}

/// A connection attempt removes the kill switch only to roll back a failed
/// bring-up (the configuration could not be read or written, or the tunnel
/// did not come up), and only after having installed it.
pub proof fn lemma_unlock_only_after_failed_bring_up(name: Seq<char>, os: Seq<ConnectOutcome>)
    ensures
        run(name, os) matches Next::Go(v) ==> (pending_view(v) == ActionView::RemoveLock ==> {
            &&& v.history.contains(Milestone::TunnelUpFailed) || v.history.contains(
                Milestone::ConfigFailed,
            )
            &&& v.history.contains(Milestone::LockInstalled)
        }),
{
    lemma_run_inv(name, os);
}

/// Never silently dark: an attempt that has installed the kill switch and
/// then ends with an error does so only from the step that removes the kill
/// switch again.
pub proof fn lemma_failure_after_lock_unlocks(name: Seq<char>, os: Seq<ConnectOutcome>)
    requires
        os.len() > 0,
        run(name, os) is Fail,
        run(name, os.drop_last()) matches Next::Go(v) && v.history.contains(
            Milestone::LockInstalled,
        ),
    ensures
        ({
            let v = run(name, os.drop_last())->Go_0;
            &&& pending_view(v) == ActionView::RemoveLock
            &&& os.last() == ConnectOutcome::Completed
        }),
{
    lemma_run_inv(name, os.drop_last());
    let v = run(name, os.drop_last())->Go_0;
    assert(v.history.len() > 0);
}

/// A tunnel that fails to come up is rolled back: the helper brings it down,
/// removes the kill switch, and answers with the failure.
pub proof fn lemma_failed_up_rolls_back(
    name: Seq<char>,
    os: Seq<ConnectOutcome>,
    e: String,
    down: Result<String, String>,
)
    requires
        run(name, os) matches Next::Go(v) && pending_view(v) == tunnel_up(v.awg),
    ensures
        ({
            let v = run(name, os)->Go_0;
            let os1 = os.push(ConnectOutcome::Ran(Err(e)));
            let os2 = os1.push(ConnectOutcome::Ran(down));
            let os3 = os2.push(ConnectOutcome::Completed);
            &&& run(name, os1) matches Next::Go(v1) && pending_view(v1) == tunnel_down(v.awg)
            &&& run(name, os2) matches Next::Go(v2) && pending_view(v2) == ActionView::RemoveLock
            &&& run(name, os3) == Next::Fail(quick_tool(v.awg) + " up failed: "@ + e@)
        }),
{
    let v = run(name, os)->Go_0;
    lemma_only_up_brings_up(v);
    let os1 = os.push(ConnectOutcome::Ran(Err(e)));
    let os2 = os1.push(ConnectOutcome::Ran(down));
    let os3 = os2.push(ConnectOutcome::Completed);
    assert(os1.drop_last() =~= os);
    assert(os2.drop_last() =~= os1);
    assert(os3.drop_last() =~= os2);
}

/// A tunnel configuration that cannot be written (or given its mode) once the
/// kill switch is up is rolled back: the helper removes the kill switch and
/// answers with the write failure.
pub proof fn lemma_failed_write_rolls_back(
    name: Seq<char>,
    os: Seq<ConnectOutcome>,
    f: WriteFailure,
)
    requires
        run(name, os) matches Next::Go(v) && v.phase == Phase::Write,
    ensures
        ({
            let v = run(name, os)->Go_0;
            let os1 = os.push(ConnectOutcome::Written(Err(f)));
            let os2 = os1.push(ConnectOutcome::Completed);
            let m = match f {
                WriteFailure::Write(d) => "write "@ + conf_path(v.awg) + ": "@ + d@,
                WriteFailure::Permissions(d) => d@,
            };
            &&& v.history.contains(Milestone::LockInstalled)
            &&& run(name, os1) matches Next::Go(v1) && pending_view(v1) == ActionView::RemoveLock
            &&& run(name, os2) == Next::Fail(m)
        }),
{
    lemma_run_inv(name, os);
    let os1 = os.push(ConnectOutcome::Written(Err(f)));
    let os2 = os1.push(ConnectOutcome::Completed);
    assert(os1.drop_last() =~= os);
    assert(os2.drop_last() =~= os1);
}

/// A blank profile name is refused whatever the helper would report: the
/// attempt answers "no profile selected" and asks for nothing.
pub proof fn lemma_blank_name_refused(name: Seq<char>, os: Seq<ConnectOutcome>)
    requires
        trim(name).len() == 0,
    ensures
        run(name, os) == Next::Fail("no profile selected"@),
    decreases os.len(),
{
    if os.len() > 0 {
        lemma_blank_name_refused(name, os.drop_last());
    }
}

/// The answer to a connect request over a whole run: when the outcomes `os`
/// end the attempt, the step that ends it (`connect` for no outcome, else the
/// last `Connect::step`) answers a failure with the error carrying its
/// message, and a success with the status report the helper observed, which
/// it reaches only with the kill switch installed.
pub proof fn lemma_connect_answer(name: Seq<char>, os: Seq<ConnectOutcome>, last: ConnectStep)
    requires
        !(run(name, os) is Go),
        os.len() == 0 ==> step_is(last, start_view(name)),
        os.len() > 0 ==> (run(name, os.drop_last()) matches Next::Go(v) && step_is(
            last,
            next_view(v, os.last()),
        )),
    ensures
        run(name, os) matches Next::Fail(m) ==> (last matches ConnectStep::Finish(
            Response::Error { message },
        ) && message@ == m),
        run(name, os) matches Next::Report(x) ==> {
            &&& last == ConnectStep::Finish(x)
            &&& os.len() > 0
            &&& os.last() == ConnectOutcome::Status(x)
            &&& pending_view(run(name, os.drop_last())->Go_0) == ActionView::ReportStatus
            &&& run(name, os.drop_last())->Go_0.history.contains(Milestone::LockInstalled)
        },
{
    if os.len() > 0 {
        lemma_run_inv(name, os.drop_last());
    }
}

/// One tool family per attempt: the tunnel configuration goes either to the
/// AmneziaWG path or to the WireGuard path, and the tunnel is then brought up
/// (and, when that fails, down again) with `awg-quick` exactly when it went
/// to the AmneziaWG path, and with `wg-quick` otherwise, so the tool always
/// reads the configuration just written.
pub proof fn lemma_tool_matches_config(name: Seq<char>, os: Seq<ConnectOutcome>, e: String)
    requires
        run(name, os) matches Next::Go(v) && v.phase == Phase::Write,
    ensures
        ({
            let v = run(name, os)->Go_0;
            let path = pending_view(v)->WriteConf_0;
            let awg_path = "/etc/amnezia/amneziawg/orion0.conf"@;
            let tool = if path == awg_path {
                "awg-quick"@
            } else {
                "wg-quick"@
            };
            let os1 = os.push(ConnectOutcome::Written(Ok(())));
            let os2 = os1.push(ConnectOutcome::Ran(Err(e)));
            &&& pending_view(v) is WriteConf
            &&& path == awg_path || path == "/etc/wireguard/orion0.conf"@
            &&& (path == awg_path) == v.awg
            &&& run(name, os1) matches Next::Go(v1) && pending_view(v1) == ActionView::Run(
                "timeout"@,
                seq!["25"@, tool, "up"@, "orion0"@],
                None,
            )
            &&& run(name, os2) matches Next::Go(v2) && pending_view(v2) == ActionView::Run(
                "timeout"@,
                seq!["10"@, tool, "down"@, "orion0"@],
                None,
            )
        }),
{
    reveal_strlit("/etc/amnezia/amneziawg/orion0.conf");
    reveal_strlit("/etc/wireguard/orion0.conf");
    let os1 = os.push(ConnectOutcome::Written(Ok(())));
    let os2 = os1.push(ConnectOutcome::Ran(Err(e)));
    assert(os1.drop_last() =~= os);
    assert(os2.drop_last() =~= os1);
    assert(AWG_CONF@[5] != WG_CONF@[5]);
}

/// The phases before the profile has been read.
pub open spec fn before_profile(p: Phase) -> bool {
    p == Phase::CheckIface || p == Phase::TearDown || p == Phase::ReadProfile
}

proof fn lemma_finished_stays(name: Seq<char>, os: Seq<ConnectOutcome>, rest: Seq<ConnectOutcome>)
    requires
        !(run(name, os) is Go),
    ensures
        run(name, os + rest) == run(name, os),
    decreases rest.len(),
{
    if rest.len() == 0 {
        assert(os + rest =~= os);
    } else {
        lemma_finished_stays(name, os, rest.drop_last());
        assert((os + rest).drop_last() =~= os + rest.drop_last());
    }
}

proof fn lemma_awg_kept(name: Seq<char>, os: Seq<ConnectOutcome>, rest: Seq<ConnectOutcome>)
    requires
        run(name, os) matches Next::Go(v) && !before_profile(v.phase),
    ensures
        run(name, os + rest) matches Next::Go(w) ==> !before_profile(w.phase) && w.awg
            == run(name, os)->Go_0.awg,
    decreases rest.len(),
{
    if rest.len() == 0 {
        assert(os + rest =~= os);
    } else {
        lemma_awg_kept(name, os, rest.drop_last());
        assert((os + rest).drop_last() =~= os + rest.drop_last());
    }
}

/// The tool family follows the profile: once the profile text `t` has been
/// read, every tunnel configuration the attempt goes on to write goes to the
/// AmneziaWG path exactly when the scan of `t` found AmneziaWG keys, and to
/// the WireGuard path otherwise.
pub proof fn lemma_family_follows_profile(
    name: Seq<char>,
    os: Seq<ConnectOutcome>,
    t: String,
    rest: Seq<ConnectOutcome>,
)
    requires
        run(name, os) matches Next::Go(v) && v.phase == Phase::ReadProfile,
        run(name, os.push(ConnectOutcome::Text(Some(t))) + rest) matches Next::Go(w) && w.phase
            == Phase::Write,
    ensures
        ({
            let w = run(name, os.push(ConnectOutcome::Text(Some(t))) + rest)->Go_0;
            pending_view(w) == ActionView::WriteConf(
                if scan_profile(t@).awg {
                    "/etc/amnezia/amneziawg/orion0.conf"@
                } else {
                    "/etc/wireguard/orion0.conf"@
                },
                w.conf,
            )
        }),
{
    let os1 = os.push(ConnectOutcome::Text(Some(t)));
    assert(os1.drop_last() =~= os);
    if !(run(name, os1) is Go) {
        lemma_finished_stays(name, os1, rest);
    }
    lemma_awg_kept(name, os1, rest);
}

} // verus!
