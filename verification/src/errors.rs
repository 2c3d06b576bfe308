//! The ways device discovery, acquisition and decoding can fail.

use vstd::prelude::*;
use vstd::string::StringExecFns;

verus! {

/// Failure kinds of the remote-control subsystem.  Failures during
/// single-device discovery are recovered locally: the device is not added
/// and no other device is affected.
#[derive(Clone, Copy, Debug, PartialEq, Eq, Structural)]
pub enum RcError {
    /// Zero or several sysfs remote-control nodes share the lirc device's
    /// final path component.
    PathResolutionAmbiguous,
    /// The sysfs node's symlink target could not be read.
    SymlinkUnreadable,
    /// The derived event file is absent or could not be opened.
    EventFileUnavailable,
    /// The exclusive grab on the opened event file was refused.
    GrabFailed,
    /// A watch notification carried no usable path or operation.
    MalformedWatchEvent,
    /// A read returned a byte count that is not a whole number of
    /// input-event records.
    PartialRecordRead,
    /// The filesystem could not be enumerated.
    GlobFailed,
    /// A globbed frontend entry does not carry a `dvbN.frontendM` name.
    MalformedFrontendName,
}

/// The one-line description of each failure kind.
pub open spec fn description_of(e: RcError) -> Seq<char> {
    match e {
        RcError::PathResolutionAmbiguous => "no unique sysfs remote-control node matches the lirc device"@,
        RcError::SymlinkUnreadable => "the sysfs node's symlink target could not be read"@,
        RcError::EventFileUnavailable => "the input-event file is absent or could not be opened"@,
        RcError::GrabFailed => "the exclusive grab on the event device was refused"@,
        RcError::MalformedWatchEvent => "a watch notification carried no usable path or operation"@,
        RcError::PartialRecordRead => "a read returned a partial input-event record"@,
        RcError::GlobFailed => "the filesystem could not be enumerated"@,
        RcError::MalformedFrontendName => "a frontend entry does not carry a dvbN.frontendM name"@,
    }
}

impl RcError {
    /// A one-line description of the failure, for logs.
    pub fn describe(&self) -> (r: String)
        ensures
            r@ == description_of(*self),
    {
        match *self {
            RcError::PathResolutionAmbiguous => String::from_str(
                "no unique sysfs remote-control node matches the lirc device",
            ),
            RcError::SymlinkUnreadable => String::from_str(
                "the sysfs node's symlink target could not be read",
            ),
            RcError::EventFileUnavailable => String::from_str(
                "the input-event file is absent or could not be opened",
            ),
            RcError::GrabFailed => String::from_str(
                "the exclusive grab on the event device was refused",
            ),
            RcError::MalformedWatchEvent => String::from_str(
                "a watch notification carried no usable path or operation",
            ),
            RcError::PartialRecordRead => String::from_str(
                "a read returned a partial input-event record",
            ),
            RcError::GlobFailed => String::from_str("the filesystem could not be enumerated"),
            RcError::MalformedFrontendName => String::from_str(
                "a frontend entry does not carry a dvbN.frontendM name",
            ),
        }
    }
}

} // verus!
