//! Capability and lookup errors.
use crate::edi::{Chd, Edi, Evd, Fd, Pid};
use vstd::prelude::*;

verus! {

/// Why an operation on a device was refused. Each variant carries the target.
#[derive(Debug, Clone, Copy, PartialEq, Eq)]
pub enum Error {
    /// The caller lacks permission on the device.
    AccessDenied(Edi),
    /// No process has this identifier.
    NoSuchPid(Pid),
    /// No file has this identifier.
    NoSuchFd(Fd),
    /// No channel has this identifier.
    NoSuchChd(Chd),
    /// No event has this identifier.
    NoSuchEvd(Evd),
}

} // verus!
