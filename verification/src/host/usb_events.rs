//! How the daemon learns about USB hot-plug: kernel uevents when a netlink
//! uevent socket can be opened, periodic polling otherwise.

use vstd::prelude::*;

verus! {

#[derive(Debug, Clone, Copy, PartialEq, Eq, Structural)]
pub enum EventMode {
    Netlink,
    Polling,
}

/// Netlink uevents when such a socket could be opened, polling otherwise.
pub fn choose_event_mode(netlink_socket_available: bool) -> (r: EventMode)
    ensures
        r == (if netlink_socket_available {
            EventMode::Netlink
        } else {
            EventMode::Polling
        }),
{
    if netlink_socket_available {
        EventMode::Netlink
    } else {
        EventMode::Polling
    }
}

} // verus!
