//! Error type shared by the process controller and the session.
//!
//! Every raw OS-call failure propagates as a typed error to the caller;
//! nothing in the library treats an OS call as infallible.

use vstd::prelude::*;

verus! {

/// Why a debugger operation failed.
#[derive(Clone, Copy, Debug, PartialEq, Eq, Structural)]
pub enum DebugError {
    /// A raw OS call (memory peek/poke, register access, wait, kill)
    /// failed; carries the errno value the OS reported.
    Os(i32),
    /// The command needs a live traced process and none exists.
    NoProcess,
    /// The OS reported a stop kind the controller does not classify.
    UnexpectedWait,
    /// A breakpoint spec could not be resolved to an address.
    BadSpec,
}

} // verus!
