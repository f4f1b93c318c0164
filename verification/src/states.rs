use vstd::prelude::*;

verus! {

/// The tunnel is down and no kill-switch rules are installed.
pub const DISCONNECTED: &'static str = "disconnected";

/// The tunnel interface is up.
pub const CONNECTED: &'static str = "connected";

/// Fail-closed degraded state: the kill-switch rules are live but the
/// tunnel interface is gone, so nothing leaves the machine.
pub const LOCKED_NO_TUNNEL: &'static str = "locked_no_tunnel";

} // verus!
