//! The decisions of one Bulk-Only Transport command: send the CBW, move the
//! data, collect the CSW, and judge the outcome.
//!
//! The USB transfers themselves are made by the caller; after each one it
//! reports what happened and is told what to do next.

use vstd::prelude::*;
use crate::csw::{CswError, csw_verdict, validate_csw, CSW_LEN};
use crate::cbw::{zeros, CBW_LEN};
use crate::bytes_le::le_value;
use crate::csw::CSW_SIGNATURE;

verus! {

/// Where the data phase of a command moves its bytes.
#[derive(Debug, Clone, Copy, PartialEq, Eq, Structural)]
pub enum DataDirection {
    NoData,
    ToDevice,
    FromDevice,
}

/// How strictly a driver runs a command.
#[derive(Debug, Clone, Copy, PartialEq, Eq, Structural)]
pub struct TransferPolicy {
    /// A CBW write of fewer than 31 bytes ends the command with an error.
    pub whole_command: bool,
    /// Data and status transfers are repeated until complete (or until the
    /// device sends nothing); otherwise each phase is one transfer.
    pub repeat: bool,
    /// The CSW is validated; otherwise it is read and ignored.
    pub check_status: bool,
}

/// Why a command failed.
#[derive(Debug, Clone, Copy, PartialEq, Eq, Structural)]
pub enum TransferError {
    /// The CBW write moved `sent` bytes instead of 31.
    ShortCommand { sent: usize },
    /// The CSW was refused.
    Status(CswError),
}

/// What the caller must do next.
#[derive(Debug, Clone, Copy)]
pub enum TransferAction {
    /// Write the 31-byte CBW to the bulk OUT endpoint.
    SendCommand,
    /// Write the data buffer from `offset` on to the bulk OUT endpoint.
    SendData { offset: usize },
    /// Read into the data buffer from `offset` on from the bulk IN endpoint.
    ReceiveData { offset: usize },
    /// Read the rest of the 13-byte CSW, of which `offset` bytes are in.
    ReceiveStatus { offset: usize },
    /// The command is over.
    Complete { outcome: Result<(), TransferError> },
}

/// What the caller's last transfer did.
pub enum TransferEvent {
    /// A bulk OUT write moved `count` bytes.
    Wrote { count: usize },
    /// A bulk IN read put `count` bytes into the data buffer.
    ReadData { count: usize },
    /// A bulk IN read of the CSW returned these bytes.
    ReadStatus { bytes: Vec<u8> },
}

/// The progress of one command.
pub struct BulkTransfer {
    policy: TransferPolicy,
    tag: u32,
    direction: DataDirection,
    buffer_len: usize,
    target: usize,
    command_sent: Option<usize>,
    action: TransferAction,
    status: Vec<u8>,
}

/// The mathematical state of a command.
#[verifier::ext_equal]
pub struct TransferView {
    pub policy: TransferPolicy,
    pub tag: u32,
    pub direction: DataDirection,
    /// Length of the caller's data buffer.
    pub buffer_len: usize,
    /// Number of data bytes the repeated data phase waits for.
    pub target: usize,
    /// Bytes of the CBW written, once it has been written.
    pub command_sent: Option<usize>,
    pub action: TransferAction,
    /// CSW bytes received so far.
    pub status: Seq<u8>,
}

impl View for BulkTransfer {
    type V = TransferView;

    closed spec fn view(&self) -> TransferView {
        TransferView {
            policy: self.policy,
            tag: self.tag,
            direction: self.direction,
            buffer_len: self.buffer_len,
            target: self.target,
            command_sent: self.command_sent,
            action: self.action,
            status: self.status@,
        }
    }
}

/// The status bytes received, zero-filled to 13 bytes.
pub open spec fn padded_status(status: Seq<u8>) -> Seq<u8> {
    status + zeros((13 - status.len()) as nat)
}

/// The outcome once the status phase is over.
pub open spec fn status_outcome(policy: TransferPolicy, tag: u32, status: Seq<u8>) -> Result<(), TransferError> {
    if !policy.check_status {
        Ok(())
    } else if policy.repeat && status.len() < 13 {
        Err(TransferError::Status(CswError::Short { length: status.len() as usize }))
    } else {
        match csw_verdict(padded_status(status), tag) {
            Ok(()) => Ok(()),
            Err(e) => Err(TransferError::Status(e)),
        }
    }
}

/// The first action after the CBW went out whole (or whole was not needed).
pub open spec fn data_phase_start(policy: TransferPolicy, direction: DataDirection, target: usize) -> TransferAction {
    match direction {
        DataDirection::NoData => TransferAction::ReceiveStatus { offset: 0 },
        DataDirection::ToDevice => if policy.repeat && target == 0 {
            TransferAction::ReceiveStatus { offset: 0 }
        } else {
            TransferAction::SendData { offset: 0 }
        },
        DataDirection::FromDevice => if policy.repeat && target == 0 {
            TransferAction::ReceiveStatus { offset: 0 }
        } else {
            TransferAction::ReceiveData { offset: 0 }
        },
    }
}

/// The event that the caller may report while `action` is pending.
pub open spec fn event_fits(v: TransferView, e: TransferEvent) -> bool {
    match (v.action, e) {
        (TransferAction::SendCommand, TransferEvent::Wrote { count }) => count <= CBW_LEN,
        (TransferAction::SendData { offset }, TransferEvent::Wrote { count }) => offset + count <= v.buffer_len,
        (TransferAction::ReceiveData { offset }, TransferEvent::ReadData { count }) => offset + count <= v.buffer_len,
        (TransferAction::ReceiveStatus { offset }, TransferEvent::ReadStatus { bytes }) =>
            v.status.len() + bytes@.len() <= CSW_LEN,
        _ => false,
    }
}

/// One step of a command: the state after the caller reports `e`.
pub open spec fn transition(v: TransferView, e: TransferEvent) -> TransferView {
    match (v.action, e) {
        (TransferAction::SendCommand, TransferEvent::Wrote { count }) => TransferView {
            command_sent: Some(count),
            action: if v.policy.whole_command && count != CBW_LEN {
                TransferAction::Complete { outcome: Err(TransferError::ShortCommand { sent: count }) }
            } else {
                data_phase_start(v.policy, v.direction, v.target)
            },
            ..v
        },
        (TransferAction::SendData { offset }, TransferEvent::Wrote { count }) => TransferView {
            action: if v.policy.repeat && offset + count < v.target {
                TransferAction::SendData { offset: (offset + count) as usize }
            } else {
                TransferAction::ReceiveStatus { offset: 0 }
            },
            ..v
        },
        (TransferAction::ReceiveData { offset }, TransferEvent::ReadData { count }) => TransferView {
            action: if v.policy.repeat && count > 0 && offset + count < v.target {
                TransferAction::ReceiveData { offset: (offset + count) as usize }
            } else {
                TransferAction::ReceiveStatus { offset: 0 }
            },
            ..v
        },
        (TransferAction::ReceiveStatus { offset }, TransferEvent::ReadStatus { bytes }) => {
            let status = v.status + bytes@;
            TransferView {
                status,
                action: if v.policy.repeat && bytes@.len() > 0 && status.len() < CSW_LEN {
                    TransferAction::ReceiveStatus { offset: status.len() as usize }
                } else {
                    TransferAction::Complete { outcome: status_outcome(v.policy, v.tag, status) }
                },
                ..v
            }
        },
        _ => v,
    }
}

impl TransferView {
    /// The state of a command is coherent.
    pub open spec fn wf(self) -> bool {
        &&& self.status.len() <= CSW_LEN
        &&& self.target <= self.buffer_len
        &&& (self.action !is SendCommand ==> self.command_sent is Some)
        &&& (self.action is SendCommand ==> self.command_sent is None && self.status.len() == 0)
        &&& (self.policy.whole_command && self.command_sent is Some && self.command_sent != Some(CBW_LEN)
                ==> self.action == TransferAction::Complete {
                    outcome: Err(TransferError::ShortCommand { sent: self.command_sent.unwrap() }) })
        &&& match self.action {
            TransferAction::SendData { offset } => offset <= self.buffer_len && self.status.len() == 0,
            TransferAction::ReceiveData { offset } => offset <= self.buffer_len && self.status.len() == 0,
            TransferAction::ReceiveStatus { offset } => offset == self.status.len(),
            _ => true,
        }
    }
}

/// Every step keeps the state of a command coherent.
pub proof fn lemma_transition_wf(v: TransferView, e: TransferEvent)
    requires
        v.wf(),
        event_fits(v, e),
    ensures
        transition(v, e).wf(),
{
}

/// A command that checks its status only succeeds when the device's status
/// wrapper carried the "USBS" signature, echoed the command's tag and
/// reported status zero; a driver that repeats transfers must moreover have
/// received all 13 bytes of it.
pub proof fn lemma_success_is_acknowledged(v: TransferView, e: TransferEvent)
    requires
        v.wf(),
        event_fits(v, e),
        v.policy.check_status,
        transition(v, e).action == (TransferAction::Complete { outcome: Ok(()) }),
    ensures
        ({
            let s = padded_status(transition(v, e).status);
            &&& le_value(s, 0) == CSW_SIGNATURE
            &&& le_value(s, 4) == v.tag
            &&& s[12] == 0
        }),
        v.policy.repeat ==> transition(v, e).status.len() == CSW_LEN,
{
}

/// A command whose driver requires whole CBWs only succeeds after all 31
/// bytes of the CBW went out.
pub proof fn lemma_success_needs_whole_command(v: TransferView, e: TransferEvent)
    requires
        v.wf(),
        event_fits(v, e),
        v.policy.whole_command,
        transition(v, e).action == (TransferAction::Complete { outcome: Ok(()) }),
    ensures
        transition(v, e).command_sent == Some(CBW_LEN),
{
    lemma_transition_wf(v, e);
}

/// The sum of the byte counts of a run of transfers.
pub open spec fn total_count(counts: Seq<usize>) -> int
    decreases counts.len(),
{
    if counts.len() == 0 { 0 } else { counts[0] + total_count(counts.drop_first()) }
}

proof fn lemma_total_count_nonneg(counts: Seq<usize>)
    ensures
        total_count(counts) >= 0,
    decreases counts.len(),
{
    if counts.len() > 0 {
        lemma_total_count_nonneg(counts.drop_first());
    }
}

/// The state after the caller reports bulk IN reads of `counts` bytes, in
/// order.
pub open spec fn after_reads(v: TransferView, counts: Seq<usize>) -> TransferView
    decreases counts.len(),
{
    if counts.len() == 0 {
        v
    } else {
        after_reads(transition(v, TransferEvent::ReadData { count: counts[0] }), counts.drop_first())
    }
}

/// The state after the caller reports bulk OUT writes of `counts` bytes, in
/// order.
pub open spec fn after_writes(v: TransferView, counts: Seq<usize>) -> TransferView
    decreases counts.len(),
{
    if counts.len() == 0 {
        v
    } else {
        after_writes(transition(v, TransferEvent::Wrote { count: counts[0] }), counts.drop_first())
    }
}

/// A repeated data phase from the device counts every byte received: after
/// reads of `counts` bytes (none of them empty) that have not yet filled
/// the announced length, the next read goes into the buffer right after all
/// the bytes received so far. A read that fills it ends the data phase.
pub proof fn lemma_repeated_reads_accumulate(v: TransferView, offset: usize, counts: Seq<usize>, last: usize)
    requires
        v.policy.repeat,
        v.action == (TransferAction::ReceiveData { offset }),
        forall|k: int| 0 <= k < counts.len() ==> #[trigger] counts[k] > 0,
        offset + total_count(counts) < v.target,
    ensures
        after_reads(v, counts).action == (TransferAction::ReceiveData { offset: (offset + total_count(counts)) as usize }),
        after_reads(v, counts).policy == v.policy,
        after_reads(v, counts).target == v.target,
        offset + total_count(counts) + last >= v.target ==> transition(after_reads(v, counts),
            TransferEvent::ReadData { count: last }).action == (TransferAction::ReceiveStatus { offset: 0 }),
    decreases counts.len(),
{
    if counts.len() > 0 {
        let rest = counts.drop_first();
        assert(counts[0] > 0);
        assert forall|k: int| 0 <= k < rest.len() implies #[trigger] rest[k] > 0 by {
            assert(rest[k] == counts[k + 1]);
        }
        lemma_total_count_nonneg(rest);
        assert(total_count(counts) == counts[0] + total_count(rest));
        let next = (offset + counts[0]) as usize;
        lemma_repeated_reads_accumulate(
            transition(v, TransferEvent::ReadData { count: counts[0] }), next, rest, last);
    }
}

/// A repeated data phase to the device counts every byte sent: after writes
/// of `counts` bytes that have not yet reached the announced length, the
/// next write starts right after all the bytes sent so far; a write that
/// reaches it ends the data phase.
pub proof fn lemma_repeated_writes_accumulate(v: TransferView, offset: usize, counts: Seq<usize>, last: usize)
    requires
        v.policy.repeat,
        v.action == (TransferAction::SendData { offset }),
        offset + total_count(counts) < v.target,
    ensures
        after_writes(v, counts).action == (TransferAction::SendData { offset: (offset + total_count(counts)) as usize }),
        after_writes(v, counts).policy == v.policy,
        after_writes(v, counts).target == v.target,
        offset + total_count(counts) + last >= v.target ==> transition(after_writes(v, counts),
            TransferEvent::Wrote { count: last }).action == (TransferAction::ReceiveStatus { offset: 0 }),
    decreases counts.len(),
{
    if counts.len() > 0 {
        let rest = counts.drop_first();
        lemma_total_count_nonneg(rest);
        assert(total_count(counts) == counts[0] + total_count(rest));
        let next = (offset + counts[0]) as usize;
        lemma_repeated_writes_accumulate(
            transition(v, TransferEvent::Wrote { count: counts[0] }), next, rest, last);
    }
}

impl BulkTransfer {
    /// Starts a command tagged `tag` whose data buffer holds `buffer_len`
    /// bytes. A repeated read phase waits for the buffer length taken
    /// modulo 2^32, the value that the CBW announces.
    pub fn new(policy: TransferPolicy, tag: u32, direction: DataDirection, buffer_len: usize) -> (t: Self)
        ensures
            t@.wf(),
            t@.policy == policy,
            t@.tag == tag,
            t@.direction == direction,
            t@.buffer_len == buffer_len,
            t@.target == (if policy.repeat && direction == DataDirection::FromDevice {
                (buffer_len as u32) as usize
            } else {
                buffer_len
            }),
            t@.command_sent is None,
            t@.action == TransferAction::SendCommand,
            t@.status.len() == 0,
    {
        let target: usize = if policy.repeat && direction == DataDirection::FromDevice {
            let announced: u32 = buffer_len as u32;
            announced as usize
        } else {
            buffer_len
        };
        assert(target <= buffer_len) by {
            if policy.repeat && direction == DataDirection::FromDevice {
                assert((buffer_len as u32) as usize <= buffer_len) by (bit_vector);
            }
        }
        BulkTransfer {
            policy,
            tag,
            direction,
            buffer_len,
            target,
            command_sent: None,
            action: TransferAction::SendCommand,
            status: Vec::new(),
        }
    }

    /// What the caller must do next.
    pub fn action(&self) -> (a: TransferAction)
        ensures
            a == self@.action,
    {
        self.action
    }

    /// The `dCBWDataTransferLength` of the command: the buffer length taken
    /// modulo 2^32, or 0 without a data phase.
    pub fn data_transfer_length(&self) -> (n: u32)
        ensures
            n == (if self@.direction == DataDirection::NoData { 0 } else { self@.buffer_len as u32 }),
    {
        if self.direction == DataDirection::NoData {
            0
        } else {
            self.buffer_len as u32
        }
    }

    /// Takes in the result of the transfer that the pending action asked
    /// for and returns the next action.
    pub fn step(&mut self, e: TransferEvent) -> (a: TransferAction)
        requires
            old(self)@.wf(),
            event_fits(old(self)@, e),
        ensures
            final(self)@ == transition(old(self)@, e),
            final(self)@.wf(),
            a == final(self)@.action,
    {
        let ghost v = self@;
        let ghost ev = e;
        match e {
            TransferEvent::Wrote { count } => {
                match self.action {
                    TransferAction::SendCommand => {
                        self.command_sent = Some(count);
                        if self.policy.whole_command && count != CBW_LEN {
                            self.action = TransferAction::Complete {
                                outcome: Err(TransferError::ShortCommand { sent: count }),
                            };
                        } else {
                            self.action = self.first_data_action();
                        }
                        assert(self@ =~= transition(v, ev));
                    },
                    TransferAction::SendData { offset } => {
                        let moved = offset + count;
                        if self.policy.repeat && moved < self.target {
                            self.action = TransferAction::SendData { offset: moved };
                        } else {
                            self.action = TransferAction::ReceiveStatus { offset: 0 };
                        }
                        assert(self@ =~= transition(v, ev));
                    },
                    _ => {},
                }
            },
            TransferEvent::ReadData { count } => {
                match self.action {
                    TransferAction::ReceiveData { offset } => {
                        let moved = offset + count;
                        if self.policy.repeat && count > 0 && moved < self.target {
                            self.action = TransferAction::ReceiveData { offset: moved };
                        } else {
                            self.action = TransferAction::ReceiveStatus { offset: 0 };
                        }
                    },
                    _ => {},
                }
            },
            TransferEvent::ReadStatus { bytes } => {
                match self.action {
                    TransferAction::ReceiveStatus { offset } => {
                        let n = bytes.len();
                        let mut i: usize = 0;
                        let ghost before = self.status@;
                        while i < n
                            invariant
                                i <= n == bytes@.len(),
                                self.status@ == before + bytes@.take(i as int),
                                before.len() + n <= CSW_LEN,
                                self@ == (TransferView { status: self@.status, ..v }),
                            decreases n - i,
                        {
                            self.status.push(bytes[i]);
                            i = i + 1;
                            assert(self.status@ =~= before + bytes@.take(i as int));
                        }
                        assert(bytes@.take(n as int) =~= bytes@);
                        assert(self@.status =~= v.status + bytes@);
                        let total = self.status.len();
                        if self.policy.repeat && n > 0 && total < CSW_LEN {
                            self.action = TransferAction::ReceiveStatus { offset: total };

                        } else {
                            let outcome = self.judge_status();
                            self.action = TransferAction::Complete { outcome };
                        }
                        assert(self@ =~= transition(v, ev));
                    },
                    _ => {},
                }
            },
        }
        assert(self@ =~= transition(v, ev));
        self.action
    }

    fn first_data_action(&self) -> (a: TransferAction)
        ensures
            a == data_phase_start(self@.policy, self@.direction, self@.target),
    {
        match self.direction {
            DataDirection::NoData => TransferAction::ReceiveStatus { offset: 0 },
            DataDirection::ToDevice => if self.policy.repeat && self.target == 0 {
                TransferAction::ReceiveStatus { offset: 0 }
            } else {
                TransferAction::SendData { offset: 0 }
            },
            DataDirection::FromDevice => if self.policy.repeat && self.target == 0 {
                TransferAction::ReceiveStatus { offset: 0 }
            } else {
                TransferAction::ReceiveData { offset: 0 }
            },
        }
    }

    fn judge_status(&self) -> (r: Result<(), TransferError>)
        requires
            self@.status.len() <= CSW_LEN,
        ensures
            r == status_outcome(self@.policy, self@.tag, self@.status),
    {
        if !self.policy.check_status {
            return Ok(());
        }
        let received = self.status.len();
        if self.policy.repeat && received < CSW_LEN {
            return Err(TransferError::Status(CswError::Short { length: received }));
        }
        let mut csw: Vec<u8> = Vec::with_capacity(CSW_LEN);
        let mut i: usize = 0;
        while i < CSW_LEN
            invariant
                i <= CSW_LEN,
                received == self@.status.len() <= CSW_LEN,
                csw@ == padded_status(self@.status).take(i as int),
            decreases CSW_LEN - i,
        {
            if i < received {
                csw.push(self.status[i]);
            } else {
                csw.push(0);
            }
            i = i + 1;
            assert(csw@ =~= padded_status(self@.status).take(i as int));
        }
        assert(csw@ =~= padded_status(self@.status));
        match validate_csw(csw.as_slice(), self.tag) {
            Ok(()) => Ok(()),
            Err(e) => Err(TransferError::Status(e)),
        }
    }
}

} // verus!
