//! Classification of hotplug watch notifications from the device-file
//! directory.

use vstd::prelude::*;

use crate::text::after_last;
use crate::text::final_component;
use crate::text::has_prefix;
use crate::text::prefix_of;

verus! {

/// What a watch notification reports about a directory entry.
#[derive(Clone, Copy, Debug, PartialEq, Eq, Structural)]
pub enum WatchKind {
    /// A file appeared.
    Created,
    /// A file disappeared.
    Removed,
    /// Any other notification.
    Other,
}

/// The registry mutation a watch notification calls for.
#[derive(Clone, Copy, Debug, PartialEq, Eq, Structural)]
pub enum HotplugAction {
    /// Attempt Device Handle construction and register the device.
    AddDevice,
    /// Drop the device's handle from the registry.
    RemoveDevice,
    /// Nothing: the entry is not a lirc device, or the notification is of
    /// no interest.
    Ignore,
}

/// A directory entry that names a lirc device: its final path component
/// begins with `lirc`.
pub open spec fn is_lirc_entry(path: Seq<char>) -> bool {
    prefix_of(after_last(path, '/'), "lirc"@)
}

/// Decides what a watch notification means for the registry: creation of a
/// lirc entry adds a device, removal of one drops it, and every other
/// notification is ignored.
pub fn classify_watch_event(path: &str, kind: WatchKind) -> (a: HotplugAction)
    ensures
        (a == HotplugAction::AddDevice) <==> (kind == WatchKind::Created && is_lirc_entry(path@)),
        (a == HotplugAction::RemoveDevice) <==> (kind == WatchKind::Removed && is_lirc_entry(
            path@,
        )),
{
    let name: String = final_component(path);
    if !has_prefix(name.as_str(), "lirc") {
        return HotplugAction::Ignore;
    }
    match kind {
        WatchKind::Created => HotplugAction::AddDevice,
        WatchKind::Removed => HotplugAction::RemoveDevice,
        WatchKind::Other => HotplugAction::Ignore,
    }
}

} // verus!
