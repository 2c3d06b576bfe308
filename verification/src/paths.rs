//! Path Resolver: derivation of the `/dev/input/by-path` event path from the
//! resolved symlink target of a sysfs remote-control node.

use vstd::prelude::*;
use vstd::string::StringExecFns;

use crate::text::after_first;
use crate::text::find_first;
use crate::text::split_components;
use crate::text::split_on;
use crate::text::str_eq;
use crate::text::suffix_after_first;

verus! {

/// Structural precondition on a symlink target read from a sysfs
/// remote-control node: it is relative (two leading parent-directory
/// markers), the component before the last is `rc`, the bus component
/// carries a hyphenated suffix, and it is deep enough to hold a PCI id.
pub open spec fn sys_link_well_formed(link: Seq<char>) -> bool {
    let cs = split_on(link, '/');
    &&& cs.len() >= 5
    &&& cs[0] == ".."@
    &&& cs[1] == ".."@
    &&& cs[cs.len() - 2] == "rc"@
    &&& cs[cs.len() - 3].contains('-')
}

/// The event path up to the final name suffix:
/// `/dev/input/by-path/pci-<pci id>-usb-0:<bus suffix>`.  The PCI id is the
/// component four positions from the start; the bus suffix is what follows
/// the first hyphen of the third-from-last component.
pub open spec fn event_path_base(link: Seq<char>) -> Seq<char> {
    let cs = split_on(link, '/');
    "/dev/input/by-path/pci-"@ + cs[4] + "-usb-0:"@ + after_first(cs[cs.len() - 3], '-')
}

/// The full event path, closed by the name suffix the platform uses.
pub open spec fn event_path_of(link: Seq<char>, ir_variant_exists: bool) -> Seq<char> {
    event_path_base(link) + (if ir_variant_exists {
        "-event-ir"@
    } else {
        "-event"@
    })
}

/// Name suffix of the IR event file.
///
/// PC-TV 282e, PC-TV 292e and WinTV-soloHD create the input-event file with
/// `event` as the final name part, but WinTV-dualHD creates it with
/// `event-ir`.  `ir_variant_exists` reports whether a file named
/// `<base>-event-ir` is already present on disk; the caller checks the disk.
pub fn get_rc_event_file_final_component(ir_variant_exists: bool) -> (r: &'static str)
    ensures
        ir_variant_exists ==> r@ == "-event-ir"@,
        !ir_variant_exists ==> r@ == "-event"@,
{
    if ir_variant_exists {
        "-event-ir"
    } else {
        "-event"
    }
}

/// Whether `link` has the structure that event-path derivation relies on.
pub fn sys_link_structure_ok(link: &str) -> (b: bool)
    ensures
        b == sys_link_well_formed(link@),
{
    let comps: Vec<String> = split_components(link);
    let len: usize = comps.len();
    if len < 5 {
        return false;
    }
    if !str_eq(comps[0].as_str(), "..") {
        return false;
    }
    if !str_eq(comps[1].as_str(), "..") {
        return false;
    }
    if !str_eq(comps[len - 2].as_str(), "rc") {
        return false;
    }
    match find_first(comps[len - 3].as_str(), '-') {
        Some(_) => true,
        None => false,
    }
}

/// The event path derived from `link`, before the final name suffix.
pub fn event_path_prefix(link: &str) -> (r: String)
    requires
        sys_link_well_formed(link@),
    ensures
        r@ == event_path_base(link@),
{
    let comps: Vec<String> = split_components(link);
    let len: usize = comps.len();
    let mut out: String = String::from_str("/dev/input/by-path/pci-");
    out.append(comps[4].as_str());
    out.append("-usb-0:");
    let bus: String = suffix_after_first(comps[len - 3].as_str(), '-');
    out.append(bus.as_str());
    assert(out@ =~= event_path_base(link@));
    out
}

/// The `/dev/input/by-path` event path named by the resolved symlink target
/// of a sysfs remote-control node.
///
/// Reconstructed from the data observed on Debian Sid; all Linux kernels
/// after 4.6 are assumed to lay the link out the same way.  The caller
/// guarantees a path sourced from a kernel symlink (`sys_link_structure_ok`
/// tests the structure) and reports with `ir_variant_exists` whether the
/// `-event-ir` name is already taken on disk.
pub fn create_event_path_from_sys_path(link: &str, ir_variant_exists: bool) -> (r: String)
    requires
        sys_link_well_formed(link@),
    ensures
        r@ == event_path_of(link@, ir_variant_exists),
{
    let mut out: String = event_path_prefix(link);
    out.append(get_rc_event_file_final_component(ir_variant_exists));
    out
}

} // verus!
