//! How serial-port failures are classified, and the counter of consecutive
//! serial timeouts after which the screen is given up on.

use vstd::prelude::*;

verus! {

#[derive(Debug, Clone, Copy, PartialEq, Eq, Structural)]
pub enum SerialErrorKind {
    Disconnected,
    Timeout,
    Other,
}

/// The errno values that the serial reader tells apart. They differ from one
/// platform to another, so the classification is stated over them.
#[derive(Debug, Clone, Copy, PartialEq, Eq, Structural)]
pub struct ErrnoCodes {
    pub eio: i32,
    pub enodev: i32,
    pub enxio: i32,
    pub eagain: i32,
}

impl ErrnoCodes {
    /// Four different codes.
    pub open spec fn well_formed(self) -> bool {
        &&& self.eio != self.enodev && self.eio != self.enxio && self.eio != self.eagain
        &&& self.enodev != self.enxio && self.enodev != self.eagain
        &&& self.enxio != self.eagain
    }
}

/// `libc::EIO`, `libc::ENODEV`, `libc::ENXIO` and `libc::EAGAIN` of the target
/// platform. The contract claims only that libc gives four different
/// numbers; which numbers they are is left unsaid, since it depends on the
/// platform (`EAGAIN` is 11 on Linux and 35 on macOS, and some systems use
/// negative codes).
#[verifier::external_body]
fn platform_errno_codes() -> (r: ErrnoCodes)
    ensures
        r.well_formed(),
{
    ErrnoCodes { eio: libc::EIO, enodev: libc::ENODEV, enxio: libc::ENXIO, eagain: libc::EAGAIN }
}

/// The device is gone for `EIO`, `ENODEV` and `ENXIO`; `EAGAIN` is a timeout.
pub open spec fn classify_errno_spec(errno: i32, codes: ErrnoCodes) -> SerialErrorKind {
    if errno == codes.eio || errno == codes.enodev || errno == codes.enxio {
        SerialErrorKind::Disconnected
    } else if errno == codes.eagain {
        SerialErrorKind::Timeout
    } else {
        SerialErrorKind::Other
    }
}

/// Classifies `errno` against the given table of codes.
pub fn classify_errno_with(errno: i32, codes: ErrnoCodes) -> (r: SerialErrorKind)
    ensures
        r == classify_errno_spec(errno, codes),
{
    if errno == codes.eio || errno == codes.enodev || errno == codes.enxio {
        SerialErrorKind::Disconnected
    } else if errno == codes.eagain {
        SerialErrorKind::Timeout
    } else {
        SerialErrorKind::Other
    }
}

/// Classifies `errno` against the platform's codes, whatever numbers they are.
pub fn classify_errno(errno: i32) -> (r: SerialErrorKind)
    ensures
        exists|codes: ErrnoCodes| #[trigger] codes.well_formed() && r == classify_errno_spec(errno, codes),
{
    let codes = platform_errno_codes();
    let r = classify_errno_with(errno, codes);
    assert(codes.well_formed() && r == classify_errno_spec(errno, codes));
    r
}

/// `POLLHUP`, `POLLERR` and `POLLNVAL`.
pub open spec fn disconnect_poll_bits() -> i16 {
    0x38
}

/// Hang-up (0x10), error (0x8) and invalid-descriptor (0x20) poll events mean
/// the device is gone.
pub fn classify_poll_revents(revents: i16) -> (r: Option<SerialErrorKind>)
    ensures
        r == (if revents & disconnect_poll_bits() != 0 {
            Some(SerialErrorKind::Disconnected)
        } else {
            None
        }),
{
    let disconnected: i16 = 0x10 | 0x8 | 0x20;
    assert(disconnected == 0x38) by (bit_vector)
        requires
            disconnected == 0x10i16 | 0x8i16 | 0x20i16,
    ;
    if revents & disconnected != 0 {
        Some(SerialErrorKind::Disconnected)
    } else {
        None
    }
}

/// Counts serial timeouts since the last successful exchange.
#[derive(Debug)]
pub struct TimeoutCounter {
    limit: u32,
    consecutive: u32,
}

impl TimeoutCounter {
    pub closed spec fn limit(&self) -> u32 {
        self.limit
    }

    pub closed spec fn consecutive(&self) -> u32 {
        self.consecutive
    }

    pub fn new(limit: u32) -> (r: TimeoutCounter)
        ensures
            r.limit() == limit,
            r.consecutive() == 0,
    {
        TimeoutCounter { limit, consecutive: 0 }
    }

    pub fn record_success(&mut self)
        ensures
            final(self).limit() == old(self).limit(),
            final(self).consecutive() == 0,
    {
        self.consecutive = 0;
    }

    /// Counts one more timeout; true once the limit is reached.
    pub fn record_timeout(&mut self) -> (r: bool)
        ensures
            final(self).limit() == old(self).limit(),
            final(self).consecutive() == (if old(self).consecutive() < u32::MAX {
                old(self).consecutive() + 1
            } else {
                old(self).consecutive() as int
            }),
            r == (final(self).consecutive() >= old(self).limit()),
    {
        if self.consecutive < u32::MAX {
            self.consecutive = self.consecutive + 1;
        }
        self.consecutive >= self.limit
    }
}

/// The count after `k` more timeouts, starting from `c`.
pub open spec fn count_after_timeouts(c: nat, k: nat) -> nat {
    if c + k <= u32::MAX {
        c + k
    } else {
        u32::MAX as nat
    }
}

/// Starting from a success (count 0), the `k`-th consecutive timeout is the
/// first to report the limit exactly when `k` is the limit: earlier ones do not.
pub proof fn lemma_timeouts_trip_at_limit(limit: u32, k: nat)
    requires
        1 <= k <= u32::MAX,
    ensures
        (count_after_timeouts(0, k) >= limit) <==> (k >= limit),
{
}

} // verus!
