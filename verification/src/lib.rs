//! The control library of ArxOS: an anonymity daemon with a fail-closed kill-switch, per-app Tor
//! isolation, the update ping, and the panels of the Control Center.
//!
//! The library decides and never touches the host. What has to be done comes out of it as data:
//! commands, plans, and the next action of a state machine. What the host replies goes back in.
use vstd::prelude::*;

pub mod anond;
pub mod arxonion;
pub mod bring_up;
pub mod community;
pub mod confine;
pub mod course;
pub mod dns;
pub mod fail_closed;
pub mod harden;
pub mod host;
pub mod i2p;
pub mod json;
pub mod killswitch;
pub mod net;
pub mod nft;
pub mod notify;
pub mod number;
pub mod order;
pub mod panel;
pub mod perf;
pub mod plan;
pub mod reading;
pub mod reversal;
pub mod round_trip;
pub mod state;
pub mod sysinfo;
pub mod take_down;
pub mod text;
pub mod tor;
pub mod util;
pub mod verify;
pub mod vm_tools;
pub mod wallpaper;

verus! {

} // verus!
