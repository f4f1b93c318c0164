//! How the helper answers a connection: which lines it answers, what it
//! says to a line it cannot decode, and which operation serves a request.
use vstd::prelude::*;

use crate::protocol::{Request, Response};
use crate::text::{append_str, chars_of, is_blank, owned, string_of, trim};

verus! {

/// Where the helper listens.
pub const SOCKET_PATH: &'static str = "/run/orion/helper.sock";

/// The helper's runtime directory.
pub const RUN_DIR: &'static str = "/run/orion";

/// A line from a client is answered unless it is blank.
pub fn wants_reply(line: &str) -> (b: bool)
    ensures
        b == (trim(line@).len() > 0),
{
    !is_blank(&chars_of(line))
}

/// The answer to a line that does not decode as a request.
pub fn bad_request(detail: &str) -> (r: Response)
    ensures
        r matches Response::Error { message } && message@ == "bad request: "@ + detail@,
{
    let mut m = chars_of("bad request: ");
    append_str(&mut m, detail);
    Response::Error { message: string_of(&m) }
}

/// The helper operation that serves a request.
pub enum Handler {
    Status,
    ListProfiles,
    Connect { profile: String },
    Disconnect,
    NewIdentity,
    /// The request has no operation in this helper; answer with this.
    Refuse(Response),
}

/// Picks the operation for a request. Launching Tor Browser is a desktop
/// action this helper does not perform, and is refused.
pub fn dispatch(req: &Request) -> (h: Handler)
    ensures
        match *req {
            Request::Status => h is Status,
            Request::ListProfiles => h is ListProfiles,
            Request::Connect { profile } => h matches Handler::Connect { profile: p } && p@
                == profile@,
            Request::Disconnect => h is Disconnect,
            Request::NewIdentity => h is NewIdentity,
            Request::LaunchTorBrowser => h matches Handler::Refuse(r) && r matches Response::Error {
                message,
            } && message@ == "launch_tor_browser is not handled by this helper"@,
        },
{
    match req {
        Request::Status => Handler::Status,
        Request::ListProfiles => Handler::ListProfiles,
        Request::Connect { profile } => Handler::Connect { profile: profile.clone() },
        Request::Disconnect => Handler::Disconnect,
        Request::NewIdentity => Handler::NewIdentity,
        Request::LaunchTorBrowser => Handler::Refuse(
            Response::Error { message: owned("launch_tor_browser is not handled by this helper") },
        ),
    }
}

} // verus!
