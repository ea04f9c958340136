//! What the daemon says on a platform it does not run on.

use vstd::prelude::*;

use crate::text::push_str;

verus! {

pub const UNSUPPORTED_PLATFORM_MESSAGE: &'static str = "miniboard-ipd is only supported on Linux";

pub fn unsupported_platform_message() -> (r: String)
    ensures
        r@ == UNSUPPORTED_PLATFORM_MESSAGE@,
{
    let mut s = String::new();
    push_str(&mut s, UNSUPPORTED_PLATFORM_MESSAGE);
    s
}

} // verus!
