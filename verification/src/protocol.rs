use vstd::prelude::*;

use crate::states;

verus! {

/// Default location of the helper's Unix socket.
pub const DEFAULT_SOCKET_PATH: &'static str = "/run/orion/helper.sock";

/// A connectable profile plus its tunnel address.
#[derive(Debug)]
pub struct ProfileInfo {
    pub name: String,
    pub addr: Option<String>,
}

/// A request from the UI to the helper.
#[derive(Debug)]
pub enum Request {
    Status,
    ListProfiles,
    Connect { profile: String },
    Disconnect,
    /// Signal NEWNYM on the node's Tor control port.
    NewIdentity,
    /// Locate and launch a Tor Browser installation for the desktop user.
    LaunchTorBrowser,
}

/// The helper's answer to a request.
#[derive(Debug)]
pub enum Response {
    /// The request was carried out (`ok` on the wire).
    Done,
    Status {
        state: String,
        profile: Option<String>,
        endpoint: Option<String>,
        handshake_age_secs: Option<u64>,
        rx_bytes: Option<u64>,
        tx_bytes: Option<u64>,
        detail: Option<String>,
    },
    Profiles { profiles: Vec<ProfileInfo> },
    /// The request failed (`err` on the wire).
    Error { message: String },
}

/// `r` reports the tunnel state `state` and nothing else.
pub open spec fn is_bare_status(r: Response, state: Seq<char>) -> bool {
    match r {
        Response::Status { state: s, profile, endpoint, handshake_age_secs, rx_bytes, tx_bytes, detail } => {
            &&& s@ == state
            &&& profile is None
            &&& endpoint is None
            &&& handshake_age_secs is None
            &&& rx_bytes is None
            &&& tx_bytes is None
            &&& detail is None
        },
        _ => false,
    }
}

impl Response {
    /// The status of a machine with no tunnel and no kill switch.
    pub fn disconnected() -> (r: Self)
        ensures
            is_bare_status(r, states::DISCONNECTED@),
    {
        Response::Status {
            state: states::DISCONNECTED.to_string(),
            profile: None,
            endpoint: None,
            handshake_age_secs: None,
            rx_bytes: None,
            tx_bytes: None,
            detail: None,
        }
    }
}

} // verus!
