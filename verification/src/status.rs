//! The helper's status report: which tool owns the tunnel, what `wg show`
//! says about the peer, and the tunnel state — `connected`, the fail-closed
//! `locked_no_tunnel`, or `disconnected`.
use vstd::prelude::*;

use crate::killswitch::IFACE;
use crate::process::{Invocation, invocation_is};
use crate::protocol::Response;
use crate::states;
use crate::text::{
    chars_of, has_prefix, line_list, lines, opt_view, owned, parse_uint, parse_unsigned, split,
    split_chars, split_once, split_once_chars, starts_with, string_of, trim, trimmed, views,
};

verus! {

/// Name of the profile that is up, written on a successful connect.
pub const ACTIVE_FILE: &'static str = "/run/orion/active-profile";

/// Tool family of the tunnel that is up (`wg` or `awg`).
pub const ACTIVE_TOOL: &'static str = "/run/orion/active-tool";

/// The `*-quick` tool that owns the tunnel, from the contents of the
/// active-tool file (absent when it cannot be read).
pub open spec fn tool_for(contents: Option<Seq<char>>) -> Seq<char> {
    match contents {
        Some(t) => if has_prefix(t, "awg"@) {
            "awg-quick"@
        } else {
            "wg-quick"@
        },
        None => "wg-quick"@,
    }
}

/// The tool that brings the current tunnel up and down.
pub fn active_tool(contents: &Option<String>) -> (r: &'static str)
    ensures
        r@ == tool_for(opt_view(*contents)),
{
    match contents {
        Some(t) => {
            if starts_with(&chars_of(t.as_str()), "awg") {
                "awg-quick"
            } else {
                "wg-quick"
            }
        },
        None => "wg-quick",
    }
}

/// The `show` binary that belongs to a `*-quick` tool.
pub fn show_binary(tool: &str) -> (r: &'static str)
    ensures
        r@ == if tool@ == "awg-quick"@ {
            "awg"@
        } else {
            "wg"@
        },
{
    if crate::text::equals_str(&chars_of(tool), "awg-quick") {
        "awg"
    } else {
        "wg"
    }
}

/// The command that reads one field of the tunnel's peer.
pub fn wg_field(bin: &str, field: &str) -> (r: Invocation)
    ensures
        invocation_is(r, bin@, seq!["show"@, IFACE@, field@], None),
{
    let mut args: Vec<String> = Vec::new();
    args.push(owned("show"));
    args.push(owned(IFACE));
    args.push(owned(field));
    assert(crate::text::string_views(args@) =~= seq!["show"@, IFACE@, field@]);
    Invocation { program: owned(bin), args, input: None }
}

/// The first line of a command's output.
pub fn first_line(out: &str) -> (r: Option<String>)
    ensures
        opt_view(r) == if lines(out@).len() > 0 {
            Some(lines(out@)[0])
        } else {
            None
        },
{
    let ls = line_list(&chars_of(out));
    assert(views(ls@).len() == ls@.len());
    if ls.len() > 0 {
        assert(views(ls@)[0] == ls@[0]@);
        Some(string_of(&ls[0]))
    } else {
        None
    }
}

/// What the helper observed about the machine.
pub struct Observation {
    /// Contents of the active-profile file, if it could be read.
    pub active_profile: Option<String>,
    /// The tunnel interface exists.
    pub iface_up: bool,
    /// The kill-switch table exists.
    pub locked: bool,
    /// First line of `wg show orion0 endpoints`.
    pub endpoints: Option<String>,
    /// First line of `wg show orion0 latest-handshakes`.
    pub latest_handshakes: Option<String>,
    /// First line of `wg show orion0 transfer`.
    pub transfer: Option<String>,
    /// Seconds since the Unix epoch.
    pub now: u64,
}

pub open spec fn opt_u64(o: Option<u64>) -> Option<int> {
    match o {
        Some(x) => Some(x as int),
        None => None,
    }
}

pub open spec fn opt_trim(o: Option<Seq<char>>) -> Option<Seq<char>> {
    match o {
        Some(s) => Some(trim(s)),
        None => None,
    }
}

/// The endpoint column of the endpoints line.
pub open spec fn report_endpoint(line: Option<Seq<char>>) -> Option<Seq<char>> {
    match line {
        Some(l) => match split_once(l, '\t') {
            Some((_, ep)) => Some(trim(ep)),
            None => None,
        },
        None => None,
    }
}

/// Seconds since the last handshake; no handshake yet (`0`) reports none.
pub open spec fn report_handshake_age(line: Option<Seq<char>>, now: int) -> Option<int> {
    match line {
        Some(l) => match split_once(l, '\t') {
            Some((_, t)) => match parse_unsigned(trim(t), u64::MAX as int) {
                Some(v) => if v > 0 {
                    Some(if now >= v {
                        now - v
                    } else {
                        0
                    })
                } else {
                    None
                },
                None => None,
            },
            None => None,
        },
        None => None,
    }
}

/// Received and sent byte counts of the transfer line (`key\trx\ttx`).
pub open spec fn report_transfer(line: Option<Seq<char>>) -> (Option<int>, Option<int>) {
    match line {
        Some(l) => {
            let parts = split(l, '\t');
            if parts.len() == 3 {
                (
                    parse_unsigned(trim(parts[1]), u64::MAX as int),
                    parse_unsigned(trim(parts[2]), u64::MAX as int),
                )
            } else {
                (None, None)
            }
        },
        None => (None, None),
    }
}

/// The tunnel state: connected whenever the interface exists; otherwise
/// locked if the kill-switch table is live; otherwise disconnected.
pub open spec fn state_name(iface_up: bool, locked: bool) -> Seq<char> {
    if iface_up {
        states::CONNECTED@
    } else if locked {
        states::LOCKED_NO_TUNNEL@
    } else {
        states::DISCONNECTED@
    }
}

/// The status report for an observation.
pub open spec fn is_status_of(r: Response, obs: Observation) -> bool {
    match r {
        Response::Status { state, profile, endpoint, handshake_age_secs, rx_bytes, tx_bytes, detail } => {
            &&& state@ == state_name(obs.iface_up, obs.locked)
            &&& opt_view(profile) == opt_trim(opt_view(obs.active_profile))
            &&& detail is None
            &&& if obs.iface_up {
                &&& opt_view(endpoint) == report_endpoint(opt_view(obs.endpoints))
                &&& opt_u64(handshake_age_secs) == report_handshake_age(
                    opt_view(obs.latest_handshakes),
                    obs.now as int,
                )
                &&& (opt_u64(rx_bytes), opt_u64(tx_bytes)) == report_transfer(
                    opt_view(obs.transfer),
                )
            } else {
                &&& endpoint is None
                &&& handshake_age_secs is None
                &&& rx_bytes is None
                &&& tx_bytes is None
            }
        },
        _ => false,
    }
}

fn endpoint_of_line(line: &Option<String>) -> (r: Option<String>)
    ensures
        opt_view(r) == report_endpoint(opt_view(*line)),
{
    match line {
        Some(l) => match split_once_chars(&chars_of(l.as_str()), '\t') {
            Some((_, ep)) => Some(string_of(&trimmed(&ep))),
            None => None,
        },
        None => None,
    }
}

fn handshake_age_of_line(line: &Option<String>, now: u64) -> (r: Option<u64>)
    ensures
        opt_u64(r) == report_handshake_age(opt_view(*line), now as int),
{
    match line {
        Some(l) => match split_once_chars(&chars_of(l.as_str()), '\t') {
            Some((_, t)) => match parse_uint(&trimmed(&t), u64::MAX) {
                Some(v) => {
                    if v > 0 {
                        Some(now.saturating_sub(v))
                    } else {
                        None
                    }
                },
                None => None,
            },
            None => None,
        },
        None => None,
    }
}

fn transfer_of_line(line: &Option<String>) -> (r: (Option<u64>, Option<u64>))
    ensures
        (opt_u64(r.0), opt_u64(r.1)) == report_transfer(opt_view(*line)),
{
    match line {
        Some(l) => {
            let parts = split_chars(&chars_of(l.as_str()), '\t');
            if parts.len() == 3 {
                assert(views(parts@)[1] == parts@[1]@);
                assert(views(parts@)[2] == parts@[2]@);
                let rx = parse_uint(&trimmed(&parts[1]), u64::MAX);
                let tx = parse_uint(&trimmed(&parts[2]), u64::MAX);
                (rx, tx)
            } else {
                (None, None)
            }
        },
        None => (None, None),
    }
}

/// Builds the status report from what the helper observed.
pub fn status(obs: &Observation) -> (r: Response)
    ensures
        is_status_of(r, *obs),
{
    let profile = match &obs.active_profile {
        Some(s) => Some(string_of(&trimmed(&chars_of(s.as_str())))),
        None => None,
    };
    let mut endpoint = None;
    let mut handshake_age_secs = None;
    let mut rx_bytes = None;
    let mut tx_bytes = None;
    if obs.iface_up {
        endpoint = endpoint_of_line(&obs.endpoints);
        handshake_age_secs = handshake_age_of_line(&obs.latest_handshakes, obs.now);
        let t = transfer_of_line(&obs.transfer);
        rx_bytes = t.0;
        tx_bytes = t.1;
    }
    let state = if obs.iface_up {
        states::CONNECTED
    } else if obs.locked {
        states::LOCKED_NO_TUNNEL
    } else {
        states::DISCONNECTED
    };
    Response::Status {
        state: owned(state),
        profile,
        endpoint,
        handshake_age_secs,
        rx_bytes,
        tx_bytes,
        detail: None,
    }
}

/// Fail-closed reporting: the status never says `disconnected` while the
/// kill switch is live, and says `locked_no_tunnel` exactly when the rules
/// are live and the tunnel is gone.
pub proof fn lemma_status_fail_closed(iface_up: bool, locked: bool)
    ensures
        state_name(iface_up, locked) == states::LOCKED_NO_TUNNEL@ <==> (!iface_up && locked),
        state_name(iface_up, locked) == states::DISCONNECTED@ <==> (!iface_up && !locked),
        state_name(iface_up, locked) == states::CONNECTED@ <==> iface_up,
{
    reveal_strlit("connected");
    reveal_strlit("disconnected");
    reveal_strlit("locked_no_tunnel");
    assert(states::CONNECTED@ != states::DISCONNECTED@) by {
        assert(states::CONNECTED@[0] != states::DISCONNECTED@[0]);
    }
    assert(states::CONNECTED@ != states::LOCKED_NO_TUNNEL@) by {
        assert(states::CONNECTED@[0] != states::LOCKED_NO_TUNNEL@[0]);
    }
    assert(states::DISCONNECTED@ != states::LOCKED_NO_TUNNEL@) by {
        assert(states::DISCONNECTED@[0] != states::LOCKED_NO_TUNNEL@[0]);
    }
}

} // verus!
