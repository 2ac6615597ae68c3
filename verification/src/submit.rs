//! Packing a mapping into the record, handing it to the kernel, and judging
//! the kernel's answer. The privileged call itself is made by the caller:
//! the functions here say what to send and what the reply means.

use crate::names::{as_map, named_at, names_distinct, lemma_position_unique, PackageUidMap};
use crate::record::{name_field, UserspaceUidData, KSU_MAX_UID_ENTRIES};
use crate::scanner::{scan_order, scan_user_data_directory, RootListing, ScanError};
use vstd::prelude::*;
use vstd::utf8::encode_utf8;

verus! {

/// The selector of the control call, which the kernel also writes into the
/// output slot of a call that it has served.
pub const KERNEL_SU_OPTION: i32 = -559038737;

/// The command that submits the owners of the packages.
pub const CMD_SUBMIT_USER_UIDS: i32 = 17;

/// The status with which a served control call comes back.
pub const SERVED_STATUS: i32 = -1;

/// The record entry that stands for one pair of the mapping.
pub open spec fn encoded_entry(pair: (Seq<char>, u32)) -> (u32, Seq<u8>) {
    (pair.1, name_field(encode_utf8(pair.0)))
}

/// The entries of the record that stands for `order`: one for each pair, in
/// order, as far as the record's capacity goes.
pub open spec fn encoded(order: Seq<(Seq<char>, u32)>) -> Seq<(u32, Seq<u8>)> {
    Seq::new(
        if order.len() <= KSU_MAX_UID_ENTRIES {
            order.len()
        } else {
            KSU_MAX_UID_ENTRIES as nat
        },
        |i: int| encoded_entry(order[i]),
    )
}

/// Packs `map` into a record. The pairs go in by the map's order; those for
/// which the record has no room are left out.
pub fn encode_uid_map(map: &PackageUidMap) -> (record: UserspaceUidData)
    ensures
        record@ == encoded(map.order()),
{
    let mut record = UserspaceUidData::new();
    let total = map.len();
    let mut i: usize = 0;
    let mut full = false;
    while i < total && !full
        invariant
            total == map.order().len(),
            i <= total,
            !full ==> record@ == encoded(map.order().take(i as int)),
            full ==> record@ == encoded(map.order()),
        decreases total - i + if full { 0int } else { 1int },
    {
        let pair = map.entry(i);
        let ghost before = record@;
        if record.add_entry(pair.uid, pair.name.as_str()) {
            assert(record@ =~= encoded(map.order().take(i + 1)));
            i += 1;
        } else {
            assert(before =~= encoded(map.order()));
            full = true;
        }
    }
    proof {
        if !full {
            assert(map.order().take(i as int) =~= map.order());
        }
    }
    record
}

/// Where a mapping has more pairs than the record has room for, the record
/// is full, and each of its entries stands for a pair of the mapping.
pub proof fn lemma_truncation_keeps_pairs(order: Seq<(Seq<char>, u32)>)
    requires
        names_distinct(order),
        order.len() > KSU_MAX_UID_ENTRIES,
    ensures
        encoded(order).len() == KSU_MAX_UID_ENTRIES,
        forall|i: int|
            0 <= i < KSU_MAX_UID_ENTRIES ==> #[trigger] encoded(order)[i] == encoded_entry(order[i])
                && as_map(order).contains_pair(order[i].0, order[i].1),
{
    assert forall|i: int| 0 <= i < KSU_MAX_UID_ENTRIES implies #[trigger] encoded(order)[i]
        == encoded_entry(order[i]) && as_map(order).contains_pair(order[i].0, order[i].1) by {
        assert(named_at(order, order[i].0, i));
        lemma_position_unique(order, order[i].0, i);
    }
}

/// What the submitter does next.
#[derive(Debug)]
pub enum SubmitStep {
    /// Nothing is sent: there was nothing to submit, and the submission has
    /// succeeded.
    Done,
    /// One control call is due, with this command and this record.
    Call { command: i32, record: UserspaceUidData },
}

/// What a control call brought back: the content of the output slot and the
/// call's own status.
#[derive(Clone, Copy, Debug, PartialEq, Eq, Structural)]
pub struct ControlReply {
    pub output: i32,
    pub status: i32,
}

/// Why a submission failed.
#[derive(Clone, Copy, Debug, PartialEq, Eq, Structural)]
pub enum SubmitError {
    /// The kernel's reply did not show that it served the call.
    Rejected,
}

/// Why a rescan failed.
#[derive(Clone, Copy, Debug, PartialEq, Eq, Structural)]
pub enum RescanError {
    /// The scan gave no mapping.
    Scan(ScanError),
    /// The mapping was not taken by the kernel.
    Submit(SubmitError),
}

/// The reply of a call that the kernel served: the output slot holds the
/// selector, and the status is the one of a served call. Both must hold.
pub open spec fn served(reply: ControlReply) -> bool {
    reply.output == KERNEL_SU_OPTION && reply.status == SERVED_STATUS
}

/// Whether `reply` shows that the kernel served the call.
pub fn control_call_succeeded(reply: ControlReply) -> (ok: bool)
    ensures
        ok == served(reply),
{
    reply.output == KERNEL_SU_OPTION && reply.status == SERVED_STATUS
}

/// Decides how to submit `map`. An empty mapping is done without a call; any
/// other calls for one submit command with the record that stands for it.
pub fn submit_uid_data_to_kernel(map: &PackageUidMap) -> (step: SubmitStep)
    ensures
        map.order().len() == 0 ==> step is Done,
        map.order().len() > 0 ==> step is Call && step->command == CMD_SUBMIT_USER_UIDS
            && step->record@ == encoded(map.order()),
{
    if map.is_empty() {
        return SubmitStep::Done;
    }
    SubmitStep::Call { command: CMD_SUBMIT_USER_UIDS, record: encode_uid_map(map) }
}

/// The outcome of a submission whose control call brought back `reply`.
pub fn conclude_submission(reply: ControlReply) -> (outcome: Result<(), SubmitError>)
    ensures
        outcome == (if served(reply) {
            Ok::<(), SubmitError>(())
        } else {
            Err::<(), SubmitError>(SubmitError::Rejected)
        }),
{
    if control_call_succeeded(reply) {
        Ok(())
    } else {
        Err(SubmitError::Rejected)
    }
}

/// Scans the data root as it was listed and decides how to submit what was
/// found. A scan that fails ends the rescan with its error; a scan that
/// finds nothing ends it with success and without a call; any other calls
/// for one submit command with the record of the mapping found.
pub fn perform_uid_scan_and_submit(root: &RootListing) -> (step: Result<SubmitStep, RescanError>)
    ensures
        match *root {
            RootListing::Missing => step == Err::<SubmitStep, RescanError>(
                RescanError::Scan(ScanError::RootMissing),
            ),
            RootListing::Unreadable => step == Err::<SubmitStep, RescanError>(
                RescanError::Scan(ScanError::RootUnreadable),
            ),
            RootListing::Entries(listed) => step is Ok && if scan_order(listed@).len() == 0 {
                step->Ok_0 is Done
            } else {
                step->Ok_0 is Call && step->Ok_0->command == CMD_SUBMIT_USER_UIDS
                    && step->Ok_0->record@ == encoded(scan_order(listed@))
            },
        },
{
    match scan_user_data_directory(root) {
        Ok(report) => {
            if report.map.is_empty() {
                return Ok(SubmitStep::Done);
            }
            Ok(submit_uid_data_to_kernel(&report.map))
        },
        Err(e) => Err(RescanError::Scan(e)),
    }
}

/// The outcome of a rescan whose control call brought back `reply`.
pub fn conclude_rescan(reply: ControlReply) -> (outcome: Result<(), RescanError>)
    ensures
        outcome == (if served(reply) {
            Ok::<(), RescanError>(())
        } else {
            Err::<(), RescanError>(RescanError::Submit(SubmitError::Rejected))
        }),
{
    match conclude_submission(reply) {
        Ok(()) => Ok(()),
        Err(e) => Err(RescanError::Submit(e)),
    }
}

} // verus!
