//! Decoding of kernel input-event records into keystroke messages, and the
//! poller's wait-set.

use vstd::prelude::*;

use crate::errors::RcError;
use crate::frontend::FrontendId;
use crate::frontend::TargettedKeystroke;
use crate::registry::RemoteControl;

verus! {

/// The kernel's type code for a key transition event.
pub const EV_KEY: u16 = 1;

/// One fixed-size kernel input-event record, reduced to the fields the
/// decoder reads: the event type, the key code and the value.  The caller
/// converts the raw kernel record; the timestamp is never read.
#[derive(Clone, Copy, Debug, PartialEq, Eq, Structural)]
pub struct InputEventRecord {
    pub event_type: u16,
    pub code: u16,
    pub value: u32,
}

/// A record that reports a key transition.
pub open spec fn is_key_event(r: InputEventRecord) -> bool {
    r.event_type == EV_KEY
}

/// The keystroke sent for record `r` on behalf of frontend `f`.
pub open spec fn keystroke_of(r: InputEventRecord, f: FrontendId) -> TargettedKeystroke {
    TargettedKeystroke { frontend_id: f, keystroke: r.code as u32, value: r.value }
}

/// The subsequence of key-event records, in record order.
pub open spec fn key_records(records: Seq<InputEventRecord>) -> Seq<InputEventRecord>
    decreases records.len(),
{
    if records.len() == 0 {
        records
    } else if is_key_event(records.last()) {
        key_records(records.drop_last()).push(records.last())
    } else {
        key_records(records.drop_last())
    }
}

/// The keystrokes forwarded for one read: one per key-event record, in
/// record order, each tagged with `f`; records of other types contribute
/// nothing.
pub open spec fn keystrokes_of(records: Seq<InputEventRecord>, f: FrontendId) -> Seq<
    TargettedKeystroke,
>
    decreases records.len(),
{
    if records.len() == 0 {
        Seq::<TargettedKeystroke>::empty()
    } else if is_key_event(records.last()) {
        keystrokes_of(records.drop_last(), f).push(keystroke_of(records.last(), f))
    } else {
        keystrokes_of(records.drop_last(), f)
    }
}

/// Every whole key-event record of a read is forwarded exactly once, in
/// record order, tagged with `f`; non-key records are never forwarded: the
/// forwarded sequence is elementwise the image of the key-record
/// subsequence.
pub proof fn lemma_key_events_forwarded_once(records: Seq<InputEventRecord>, f: FrontendId)
    ensures
        keystrokes_of(records, f).len() == key_records(records).len(),
        forall|j: int|
            0 <= j < key_records(records).len() ==> #[trigger] keystrokes_of(records, f)[j]
                == keystroke_of(key_records(records)[j], f),
    decreases records.len(),
{
    if records.len() > 0 {
        lemma_key_events_forwarded_once(records.drop_last(), f);
    }
}

/// Decodes the records of one read: forwards every key-event record as a
/// keystroke for `frontend_id`, in order, and silently discards records of
/// every other type.
pub fn process_events_for_device(records: &Vec<InputEventRecord>, frontend_id: FrontendId) -> (r:
    Vec<TargettedKeystroke>)
    ensures
        r@ == keystrokes_of(records@, frontend_id),
{
    let mut out: Vec<TargettedKeystroke> = Vec::new();
    let mut i: usize = 0;
    proof {
        assert(records@.subrange(0, 0) =~= Seq::<InputEventRecord>::empty());
    }
    while i < records.len()
        invariant
            i <= records@.len(),
            out@ == keystrokes_of(records@.subrange(0, i as int), frontend_id),
        decreases records@.len() - i,
    {
        let rec: InputEventRecord = records[i];
        proof {
            assert(records@.subrange(0, i + 1).drop_last() =~= records@.subrange(0, i as int));
            assert(records@.subrange(0, i + 1).last() == records@[i as int]);
        }
        if rec.event_type == EV_KEY {
            out.push(
                TargettedKeystroke {
                    frontend_id,
                    keystroke: rec.code as u32,
                    value: rec.value,
                },
            );
        }
        i = i + 1;
    }
    proof {
        assert(records@.subrange(0, records@.len() as int) =~= records@);
    }
    out
}

/// Splits the byte count of one successful read into whole records.  A
/// read must yield an exact multiple of the record size; a partial record
/// is an unrecoverable inconsistency with the kernel interface.
pub fn whole_records_in_read(byte_count: usize, record_size: usize) -> (r: Result<usize, RcError>)
    requires
        record_size > 0,
    ensures
        byte_count % record_size == 0 ==> r == Ok::<usize, RcError>(
            (byte_count / record_size) as usize,
        ),
        byte_count % record_size != 0 ==> r == Err::<usize, RcError>(RcError::PartialRecordRead),
{
    if byte_count % record_size == 0 {
        Ok(byte_count / record_size)
    } else {
        Err(RcError::PartialRecordRead)
    }
}

/// The poller's wait-set: the device file descriptor of every handle in
/// the snapshot, in snapshot order, each to be watched for readability.
pub fn build_wait_set(remotes: &Vec<RemoteControl>) -> (fds: Vec<i32>)
    ensures
        fds@.len() == remotes@.len(),
        forall|i: int| 0 <= i < fds@.len() ==> fds@[i] == (#[trigger] remotes@[i])@.device_fd,
{
    let mut fds: Vec<i32> = Vec::new();
    let mut i: usize = 0;
    while i < remotes.len()
        invariant
            i <= remotes@.len(),
            fds@.len() == i,
            forall|j: int| 0 <= j < i ==> fds@[j] == (#[trigger] remotes@[j])@.device_fd,
        decreases remotes@.len() - i,
    {
        fds.push(remotes[i].device_fd);
        i = i + 1;
    }
    fds
}

} // verus!
