//! Orion client: the wire protocol between the desktop UI and the privileged
//! helper, and the helper's decisions (profile parsing, kill-switch rules,
//! tunnel configuration, status reporting, connect/disconnect sequencing).
pub mod states;
pub mod protocol;
pub mod text;
pub mod profile;
pub mod wgconf;
pub mod process;
pub mod killswitch;
pub mod status;
pub mod connect;
pub mod disconnect;
pub mod identity;
pub mod transport;
pub mod helper;
pub mod tray;
