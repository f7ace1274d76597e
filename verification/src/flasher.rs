//! The flashing session of the primary controller.
//!
//! A session is a script: the writes and the awaited acknowledgements of
//! the whole transfer, in order, worked out from the image before the first
//! byte is sent. The session then walks the script, one step for each thing
//! that the port reports.

use crate::error::{DecodeError, FlashError, IoError};
use crate::hardware::{Device, Product};
use crate::ihex::{
    declared_bytes, decode_lines, image_records, is_first_malformed, line_record, records_of,
    resolution, resolve_addresses, DecodedHex, FlashPlan, Record,
};
use crate::text::{copy_bytes, lines};
use vstd::prelude::*;

verus! {

/// The number of payload bytes that one group of records may hold.
pub const PACKET_SIZE: usize = 4096;

/// The number of bytes that one write hands to the port at most.
pub const WRITE_SIZE: usize = 200;

/// What the port reported.
#[derive(Debug, Clone, Copy, PartialEq, Eq)]
pub enum FlashEvent {
    /// Nothing yet: the session is to begin with the image given.
    Begin,
    /// The bytes of the last write are out.
    Written,
    /// The acknowledgement that was awaited has arrived.
    Acknowledged,
    /// The port failed.
    Failed(IoError),
}

/// What the port must do next.
#[derive(Debug, Clone, PartialEq, Eq)]
pub enum FlashAction {
    /// Write these bytes in one call and flush.
    Write(Vec<u8>),
    /// Read one response.
    AwaitAck,
    /// The device is flashed.
    Done,
    /// The session has failed and cannot be taken up again.
    Failed(FlashError),
}

/// What a `FlashAction` says.
pub enum Action {
    Write(Seq<u8>),
    AwaitAck,
    Done,
    Failed(FlashError),
}

impl View for FlashAction {
    type V = Action;

    open spec fn view(&self) -> Action {
        match self {
            FlashAction::Write(bytes) => Action::Write(bytes@),
            FlashAction::AwaitAck => Action::AwaitAck,
            FlashAction::Done => Action::Done,
            FlashAction::Failed(e) => Action::Failed(*e),
        }
    }
}

impl Action {
    /// Whether the action ends the session.
    pub open spec fn is_end(self) -> bool {
        self is Done || self is Failed
    }
}

/// The actions that a vector holds.
pub open spec fn actions_of(v: Seq<FlashAction>) -> Seq<Action> {
    Seq::new(v.len(), |i: int| v[i]@)
}

/// The hexadecimal digit of a number below sixteen, in lower case.
pub open spec fn hex_char(d: nat) -> u8 {
    if d < 10 {
        (48 + d) as u8
    } else {
        (87 + d) as u8
    }
}

/// A number as eight hexadecimal digits in lower case, the most significant
/// first.
pub open spec fn hex8(n: u32) -> Seq<u8> {
    seq![
        hex_char((n / 0x1000_0000) as nat % 16),
        hex_char((n / 0x100_0000) as nat % 16),
        hex_char((n / 0x10_0000) as nat % 16),
        hex_char((n / 0x1_0000) as nat % 16),
        hex_char((n / 0x1000) as nat % 16),
        hex_char((n / 0x100) as nat % 16),
        hex_char((n / 0x10) as nat % 16),
        hex_char(n as nat % 16),
    ]
}

/// The command that erases the device from `address` on: `E`, the address,
/// `#`.
pub open spec fn erase_command(address: u32) -> Seq<u8> {
    seq![69u8] + hex8(address) + seq![35u8]
}

/// The command that announces a payload of `len` bytes: `U`, the length,
/// `#`.
pub open spec fn announce_command(len: u32) -> Seq<u8> {
    seq![85u8] + hex8(len) + seq![35u8]
}

/// The command that commits the announced payload at `address`: `W`, the
/// address, a comma, the length, `#`.
pub open spec fn commit_command(address: u32, len: u32) -> Seq<u8> {
    seq![87u8] + hex8(address) + seq![44u8] + hex8(len) + seq![35u8]
}

/// The command that ends the transfer: `S#`.
pub open spec fn finish_command() -> Seq<u8> {
    seq![83u8, 35u8]
}

/// The writes that put `buffer` out: pieces of at most `WRITE_SIZE` bytes,
/// in order; none for an empty buffer.
pub open spec fn pieces(buffer: Seq<u8>) -> Seq<Action>
    decreases buffer.len(),
{
    if buffer.len() == 0 {
        Seq::empty()
    } else if buffer.len() <= WRITE_SIZE {
        seq![Action::Write(buffer)]
    } else {
        seq![Action::Write(buffer.take(WRITE_SIZE as int))] + pieces(buffer.skip(WRITE_SIZE as int))
    }
}

/// The bytes that a run of writes puts out, one write after the other.
pub open spec fn written(actions: Seq<Action>) -> Seq<u8>
    decreases actions.len(),
{
    if actions.len() == 0 {
        Seq::empty()
    } else {
        match actions[0] {
            Action::Write(bytes) => bytes + written(actions.drop_first()),
            _ => written(actions.drop_first()),
        }
    }
}

/// A write of at least one byte and at most `WRITE_SIZE` bytes.
pub open spec fn is_small_write(action: Action) -> bool {
    match action {
        Action::Write(bytes) => 0 < bytes.len() <= WRITE_SIZE,
        _ => false,
    }
}

/// The pieces of a buffer are writes of at least one byte and at most
/// `WRITE_SIZE` bytes each, and together they put out the buffer.
pub proof fn lemma_pieces(buffer: Seq<u8>)
    ensures
        forall|i: int|
            0 <= i < pieces(buffer).len() ==> is_small_write(#[trigger] pieces(buffer)[i]),
        written(pieces(buffer)) == buffer,
    decreases buffer.len(),
{
    if buffer.len() == 0 {
    } else if buffer.len() <= WRITE_SIZE {
        let all = pieces(buffer);
        assert(all[0] == Action::Write(buffer));
        assert(all.drop_first() == Seq::<Action>::empty());
        assert(written(all.drop_first()) == Seq::<u8>::empty());
        assert(written(all) == buffer + written(all.drop_first()));
        assert(buffer + Seq::<u8>::empty() == buffer);
    } else {
        let head = buffer.take(WRITE_SIZE as int);
        let rest = buffer.skip(WRITE_SIZE as int);
        lemma_pieces(rest);
        let all = pieces(buffer);
        assert(all == seq![Action::Write(head)] + pieces(rest));
        assert(all[0] == Action::Write(head));
        assert(all.drop_first() == pieces(rest));
        assert(written(all) == head + written(all.drop_first()));
        assert(head + rest == buffer);
        assert forall|i: int| 0 <= i < all.len() implies is_small_write(#[trigger] all[i]) by {
            if i > 0 {
                assert(all[i] == pieces(rest)[i - 1]);
            }
        }
    }
}

/// What is done for one record: its length is announced, its payload is
/// written, the write is committed at its address, and one acknowledgement
/// is awaited.
pub open spec fn record_actions(record: Record) -> Seq<Action> {
    pieces(announce_command(record.len as u32)) + pieces(record.data) + pieces(
        commit_command(record.address, record.len as u32),
    ) + seq![Action::AwaitAck]
}

/// The end of the group of records that starts at `start`: the records are
/// taken one after the other for as long as their byte counts together stay
/// within `budget`.
pub open spec fn group_end(records: Seq<Record>, start: int, budget: int) -> int
    decreases records.len() - start,
{
    if 0 <= start < records.len() && records[start].len <= budget {
        group_end(records, start + 1, budget - records[start].len)
    } else {
        start
    }
}

/// The number of payload bytes that the records from `from` up to `to`
/// declare together.
pub open spec fn declared_between(records: Seq<Record>, from: int, to: int) -> int
    decreases to - from,
{
    if from >= to {
        0
    } else {
        records[from].len + declared_between(records, from + 1, to)
    }
}

/// What is done for the records from `from` up to `to`, one after the
/// other.
pub open spec fn group_actions(records: Seq<Record>, from: int, to: int) -> Seq<Action>
    decreases to - from,
{
    if from >= to {
        Seq::empty()
    } else {
        record_actions(records[from]) + group_actions(records, from + 1, to)
    }
}

/// How a transfer ends well: the final command, one acknowledgement, done.
pub open spec fn finish_actions() -> Seq<Action> {
    pieces(finish_command()) + seq![Action::AwaitAck, Action::Done]
}

/// The transfer loop from record `next` on, with `remaining` bytes of the
/// plan not yet written.
///
/// While bytes remain, the next group of records is taken and each of its
/// records is written. Where no record fits into a group, the transfer has
/// stalled and the session fails. When no bytes remain, the transfer is
/// finished.
pub open spec fn transfer_actions(records: Seq<Record>, next: int, remaining: int) -> Seq<Action>
    decreases records.len() - next,
{
    if remaining <= 0 {
        finish_actions()
    } else {
        let end = group_end(records, next, PACKET_SIZE as int);
        if next < 0 || end <= next || end > records.len() {
            seq![Action::Failed(FlashError::StalledTransfer)]
        } else {
            group_actions(records, next, end) + transfer_actions(
                records,
                end,
                remaining - declared_between(records, next, end),
            )
        }
    }
}

/// Where a group ends, it ends within the records and after its start, and
/// the record behind it, if there is one, does not fit into what the group
/// has left of its budget.
pub proof fn lemma_group_end(records: Seq<Record>, start: int, budget: int)
    requires
        0 <= start <= records.len(),
        0 <= budget,
    ensures
        start <= group_end(records, start, budget) <= records.len(),
        declared_between(records, start, group_end(records, start, budget)) <= budget,
        group_end(records, start, budget) < records.len() ==> records[group_end(
            records,
            start,
            budget,
        )].len > budget - declared_between(records, start, group_end(records, start, budget)),
        start < records.len() && records[start].len <= budget ==> start < group_end(
            records,
            start,
            budget,
        ),
    decreases records.len() - start,
{
    if start < records.len() && records[start].len <= budget {
        let rest = budget - records[start].len;
        lemma_group_end(records, start + 1, rest);
        let end = group_end(records, start + 1, rest);
        lemma_declared_between_first(records, start, end);
    }
}

/// The bytes of a range are those of its first record and of the rest.
pub proof fn lemma_declared_between_first(records: Seq<Record>, from: int, to: int)
    requires
        0 <= from < to <= records.len(),
    ensures
        declared_between(records, from, to) == records[from].len + declared_between(
            records,
            from + 1,
            to,
        ),
{
}

/// The bytes of a range are those of its two parts.
pub proof fn lemma_declared_between_split(records: Seq<Record>, from: int, mid: int, to: int)
    requires
        0 <= from <= mid <= to <= records.len(),
    ensures
        declared_between(records, from, to) == declared_between(records, from, mid)
            + declared_between(records, mid, to),
        declared_between(records, from, mid) >= 0,
    decreases mid - from,
{
    if from < mid {
        lemma_declared_between_split(records, from + 1, mid, to);
    }
}

/// What is done for a range of records is what is done for its two parts,
/// one after the other.
pub proof fn lemma_group_actions_split(records: Seq<Record>, from: int, mid: int, to: int)
    requires
        0 <= from <= mid <= to <= records.len(),
    ensures
        group_actions(records, from, to) == group_actions(records, from, mid) + group_actions(
            records,
            mid,
            to,
        ),
    decreases mid - from,
{
    if from < mid {
        lemma_group_actions_split(records, from + 1, mid, to);
        assert(record_actions(records[from]) + (group_actions(records, from + 1, mid)
            + group_actions(records, mid, to)) == (record_actions(records[from]) + group_actions(
            records,
            from + 1,
            mid,
        )) + group_actions(records, mid, to));
    } else {
        assert(Seq::<Action>::empty() + group_actions(records, mid, to) == group_actions(
            records,
            mid,
            to,
        ));
    }
}

/// A range of records declares no fewer than no bytes.
pub proof fn lemma_declared_between_is_natural(records: Seq<Record>, from: int, to: int)
    requires
        0 <= from <= to <= records.len(),
    ensures
        declared_between(records, from, to) >= 0,
    decreases to - from,
{
    if from < to {
        lemma_declared_between_is_natural(records, from + 1, to);
    }
}

/// A transfer whose count of remaining bytes is that of the records that
/// remain does not stall: every record that remains is written, in order,
/// and the transfer is finished.
pub proof fn lemma_transfer_is_complete(records: Seq<Record>, next: int)
    requires
        0 <= next <= records.len(),
        declared_between(records, next, records.len() as int) > 0,
    ensures
        transfer_actions(records, next, declared_between(records, next, records.len() as int))
            == group_actions(records, next, records.len() as int) + finish_actions(),
    decreases records.len() - next,
{
    let n = records.len() as int;
    let remaining = declared_between(records, next, n);
    let end = group_end(records, next, PACKET_SIZE as int);
    let taken = declared_between(records, next, end);
    let left = remaining - taken;
    assert(next < n);
    assert(next < end <= n && taken <= PACKET_SIZE && (end < n ==> records[end].len
        > PACKET_SIZE - taken)) by {
        lemma_group_end(records, next, PACKET_SIZE as int);
    }
    assert(left == declared_between(records, end, n)) by {
        lemma_declared_between_split(records, next, end, n);
    }
    assert(left >= 0 && (end < n ==> left > 0)) by {
        lemma_declared_between_is_natural(records, end, n);
        if end < n {
            lemma_declared_between_first(records, end, n);
            lemma_declared_between_is_natural(records, end + 1, n);
        }
    }
    let group = group_actions(records, next, end);
    let tail = transfer_actions(records, end, left);
    assert(transfer_actions(records, next, remaining) == group + tail);
    if left > 0 {
        lemma_transfer_is_complete(records, end);
        let rest = group_actions(records, end, n);
        assert(tail == rest + finish_actions());
        assert(group_actions(records, next, n) == group + rest) by {
            lemma_group_actions_split(records, next, end, n);
        }
        assert(group + (rest + finish_actions()) == (group + rest) + finish_actions());
    } else {
        assert(end == n);
        assert(tail == finish_actions());
    }
}

/// The bytes that records declare together are those of the range of all of
/// them.
pub proof fn lemma_declared_bytes_between(records: Seq<Record>)
    ensures
        declared_bytes(records) == declared_between(records, 0, records.len() as int),
    decreases records.len(),
{
    if records.len() > 0 {
        let head = records.drop_last();
        lemma_declared_bytes_between(head);
        lemma_declared_between_same(head, records, 0, head.len() as int);
        lemma_declared_between_extend(records, 0, head.len() as int);
    }
}

/// The bytes of a range depend on the records of the range alone.
pub proof fn lemma_declared_between_same(a: Seq<Record>, b: Seq<Record>, from: int, to: int)
    requires
        0 <= from <= to <= a.len(),
        to <= b.len(),
        forall|i: int| from <= i < to ==> a[i] == b[i],
    ensures
        declared_between(a, from, to) == declared_between(b, from, to),
    decreases to - from,
{
    if from < to {
        lemma_declared_between_same(a, b, from + 1, to);
    }
}

/// The script of a plan that counts the bytes of its records never stalls.
/// After the erase and its acknowledgement, every record is written in
/// order and the transfer is finished; where the records hold no bytes at
/// all, the transfer is finished at once.
pub proof fn lemma_plan_never_stalls(records: Seq<Record>)
    requires
        records.len() > 0,
    ensures
        script_of_plan(records, declared_bytes(records) as int) == pieces(
            erase_command(records[0].address),
        ) + seq![Action::AwaitAck] + if declared_bytes(records) == 0 {
            finish_actions()
        } else {
            group_actions(records, 0, records.len() as int) + finish_actions()
        },
{
    lemma_declared_bytes_between(records);
    if declared_bytes(records) > 0 {
        lemma_transfer_is_complete(records, 0);
    }
}

/// The script of a session for a plan: the device is erased from the
/// address of the first record on and one acknowledgement is awaited; then
/// the transfer loop runs. A plan without records fails at once.
pub open spec fn script_of_plan(records: Seq<Record>, total: int) -> Seq<Action> {
    if records.len() == 0 {
        seq![Action::Failed(FlashError::EmptyImage)]
    } else {
        pieces(erase_command(records[0].address)) + seq![Action::AwaitAck] + transfer_actions(
            records,
            0,
            total,
        )
    }
}

/// The script of a session for an image: that of its plan, or a failure at
/// once where the image is rejected. Where a line of the image is
/// malformed, the failure names the first such line; where a record has no
/// place in 32 bits, it names the first such record; both counted from one.
pub open spec fn script_of_image(text: Seq<char>) -> Seq<Action> {
    match image_records(text) {
        Some(records) => match resolution(records) {
            Ok(pass) => script_of_plan(pass.plan, declared_bytes(pass.plan) as int),
            Err(k) => seq![
                Action::Failed(
                    FlashError::Decode(
                        DecodeError::AddressOutOfRange { line_no: (k + 1) as usize },
                    ),
                ),
            ],
        },
        None => seq![
            Action::Failed(
                FlashError::Decode(
                    DecodeError::MalformedLine {
                        line_no: ((choose|k: int| is_first_malformed(lines(text), k)) + 1) as usize,
                    },
                ),
            ),
        ],
    }
}

/// The failure that a fault of the port means while `current` was being
/// done: a timeout while an acknowledgement is awaited means that the
/// device does not acknowledge; anything else is the fault itself.
pub open spec fn failure_of(current: Action, fault: IoError) -> FlashError {
    if current is AwaitAck && fault == IoError::Timeout {
        FlashError::DeviceNotAcknowledging
    } else {
        FlashError::Io(fault)
    }
}

/// The script and the position in it that an event leaves.
///
/// `Begin` starts the script of the image. An event that reports what the
/// script asked for moves on to the next action. At the end of a script
/// nothing moves any more. A fault of the port, or an event that the script
/// did not ask for, replaces the script by the failure alone.
pub open spec fn flash_step(script: Seq<Action>, position: int, event: FlashEvent, text: Seq<char>) -> (
    Seq<Action>,
    int,
) {
    match event {
        FlashEvent::Begin => (script_of_image(text), 0),
        FlashEvent::Written => if script[position].is_end() {
            (script, position)
        } else if script[position] is Write {
            (script, position + 1)
        } else {
            (seq![Action::Failed(FlashError::DeviceNotAcknowledging)], 0)
        },
        FlashEvent::Acknowledged => if script[position].is_end() {
            (script, position)
        } else if script[position] is AwaitAck {
            (script, position + 1)
        } else {
            (seq![Action::Failed(FlashError::DeviceNotAcknowledging)], 0)
        },
        FlashEvent::Failed(fault) => if script[position].is_end() {
            (script, position)
        } else {
            (seq![Action::Failed(failure_of(script[position], fault))], 0)
        },
    }
}

/// A script that a session can walk: it is not empty, it ends with the end
/// of the session, and nothing before that is an end.
pub open spec fn is_script(script: Seq<Action>) -> bool {
    &&& script.len() > 0
    &&& script.last().is_end()
    &&& forall|i: int| 0 <= i < script.len() - 1 ==> !(#[trigger] script[i]).is_end()
}

/// The flashing session of one device: a script, and the position in it of
/// the action that the port is doing.
pub struct Flasher {
    script: Vec<FlashAction>,
    position: usize,
}

/// The digit of a number below sixteen.
fn hex_digit_of(d: u32) -> (c: u8)
    requires
        d < 16,
    ensures
        c == hex_char(d as nat),
{
    if d < 10 {
        (48 + d) as u8
    } else {
        (87 + d) as u8
    }
}

/// Appends `address` to `out` as eight hexadecimal digits in lower case.
pub fn num_to_hex(out: &mut Vec<u8>, address: u32)
    ensures
        final(out)@ == old(out)@ + hex8(address),
{
    let ghost before = out@;
    out.push(hex_digit_of((address / 0x1000_0000) % 16));
    out.push(hex_digit_of((address / 0x100_0000) % 16));
    out.push(hex_digit_of((address / 0x10_0000) % 16));
    out.push(hex_digit_of((address / 0x1_0000) % 16));
    out.push(hex_digit_of((address / 0x1000) % 16));
    out.push(hex_digit_of((address / 0x100) % 16));
    out.push(hex_digit_of((address / 0x10) % 16));
    out.push(hex_digit_of(address % 16));
    assert(out@ == before + hex8(address));
}

/// Appends the actions of `more` to `script`.
fn append_actions(script: &mut Vec<FlashAction>, more: Vec<FlashAction>)
    ensures
        actions_of(final(script)@) == actions_of(old(script)@) + actions_of(more@),
{
    let ghost before = script@;
    let ghost added = more@;
    let mut more = more;
    script.append(&mut more);
    assert(script@ == before + added);
    assert(actions_of(script@) == actions_of(before) + actions_of(added));
}

impl Flasher {
    /// A session for `device`, which must be a Defy that does not run its
    /// bootloader.
    pub fn new(device: &Device) -> (flasher: Result<Flasher, FlashError>)
        ensures
            match flasher {
                Ok(f) => {
                    &&& device.hardware.info.product == Product::Defy
                    &&& !device.hardware.bootloader
                    &&& f.script() == seq![Action::Failed(FlashError::EmptyImage)]
                    &&& f.position() == 0
                },
                Err(e) => if device.hardware.info.product != Product::Defy {
                    e == FlashError::UnsupportedDevice
                } else {
                    device.hardware.bootloader && e == FlashError::BootloaderMode
                },
            },
    {
        match device.hardware.info.product {
            Product::Defy => {},
            _ => {
                return Err(FlashError::UnsupportedDevice);
            },
        }
        if device.hardware.bootloader {
            return Err(FlashError::BootloaderMode);
        }
        let mut script: Vec<FlashAction> = Vec::new();
        script.push(FlashAction::Failed(FlashError::EmptyImage));
        assert(actions_of(script@) == seq![Action::Failed(FlashError::EmptyImage)]);
        Ok(Flasher { script, position: 0 })
    }

    /// The session stands at an action of a script.
    #[verifier::type_invariant]
    pub closed spec fn well_formed(self) -> bool {
        &&& is_script(actions_of(self.script@))
        &&& self.position < self.script.len()
    }

    /// The script of the session.
    pub closed spec fn script(&self) -> Seq<Action> {
        actions_of(self.script@)
    }

    /// The position in the script of the action that the port is doing.
    pub closed spec fn position(&self) -> int {
        self.position as int
    }

    /// The writes that put `buffer` out, each of at most `WRITE_SIZE`
    /// bytes.
    pub fn write(buffer: &[u8]) -> (out: Vec<FlashAction>)
        ensures
            actions_of(out@) == pieces(buffer@),
            forall|i: int| 0 <= i < out.len() ==> (#[trigger] out[i]@) is Write,
    {
        let mut out: Vec<FlashAction> = Vec::new();
        let mut at: usize = 0;
        assert(buffer@.skip(0) == buffer@);
        while at < buffer.len()
            invariant
                0 <= at <= buffer.len(),
                pieces(buffer@) == actions_of(out@) + pieces(buffer@.skip(at as int)),
                forall|i: int| 0 <= i < out.len() ==> (#[trigger] out[i]@) is Write,
            decreases buffer.len() - at,
        {
            let end: usize = if buffer.len() - at <= WRITE_SIZE {
                buffer.len()
            } else {
                at + WRITE_SIZE
            };
            let mut piece: Vec<u8> = Vec::new();
            let mut i: usize = at;
            while i < end
                invariant
                    at <= i <= end <= buffer.len(),
                    piece@ == buffer@.subrange(at as int, i as int),
                decreases end - i,
            {
                piece.push(buffer[i]);
                i += 1;
            }
            let ghost rest = buffer@.skip(at as int);
            let ghost before = actions_of(out@);
            proof {
                if buffer.len() - at <= WRITE_SIZE {
                    assert(piece@ == rest);
                    assert(buffer@.skip(end as int) == Seq::<u8>::empty());
                    assert(pieces(buffer@.skip(end as int)) == Seq::<Action>::empty());
                    assert(pieces(rest) == seq![Action::Write(piece@)] + pieces(
                        buffer@.skip(end as int),
                    ));
                } else {
                    assert(piece@ == rest.take(WRITE_SIZE as int));
                    assert(rest.skip(WRITE_SIZE as int) == buffer@.skip(end as int));
                }
            }
            out.push(FlashAction::Write(piece));
            proof {
                assert(actions_of(out@) == before.push(Action::Write(piece@)));
                assert(before.push(Action::Write(piece@)) + pieces(buffer@.skip(end as int))
                    == before + (seq![Action::Write(piece@)] + pieces(buffer@.skip(end as int))));
            }
            at = end;
        }
        assert(pieces(buffer@.skip(at as int)) == Seq::<Action>::empty());
        assert(actions_of(out@) + Seq::<Action>::empty() == actions_of(out@));
        out
    }

    /// What is done for one record of the plan: its length is announced,
    /// its payload is written, the write is committed at `address`, and one
    /// acknowledgement is awaited.
    pub fn local_write(address: u32, decoded_hex: &DecodedHex) -> (out: Vec<FlashAction>)
        ensures
            actions_of(out@) == record_actions(Record { address, ..decoded_hex@ }),
            forall|i: int| 0 <= i < out.len() ==> !(#[trigger] out[i]@).is_end(),
    {
        let mut announce: Vec<u8> = Vec::new();
        announce.push(85u8);
        num_to_hex(&mut announce, decoded_hex.len as u32);
        announce.push(35u8);
        assert(announce@ == announce_command(decoded_hex.len as u32));
        let mut commit: Vec<u8> = Vec::new();
        commit.push(87u8);
        num_to_hex(&mut commit, address);
        commit.push(44u8);
        num_to_hex(&mut commit, decoded_hex.len as u32);
        commit.push(35u8);
        assert(commit@ == commit_command(address, decoded_hex.len as u32));
        let mut out = Self::write(announce.as_slice());
        append_actions(&mut out, Self::write(decoded_hex.data.as_slice()));
        append_actions(&mut out, Self::write(commit.as_slice()));
        let ghost before = actions_of(out@);
        out.push(FlashAction::AwaitAck);
        assert(actions_of(out@) == before + seq![Action::AwaitAck]);
        assert forall|i: int| 0 <= i < out.len() implies !(#[trigger] out[i]@).is_end() by {
            assert(out[i]@ == actions_of(out@)[i]);
            if i < before.len() {
                assert(before[i] is Write);
            }
        }
        out
    }
}

/// Two lines cannot both be the first malformed line.
pub proof fn lemma_first_malformed_is_one(ls: Seq<Seq<char>>, a: int, b: int)
    requires
        is_first_malformed(ls, a),
        is_first_malformed(ls, b),
    ensures
        a == b,
{
    if a < b {
        assert(line_record(ls[a]) is Some);
    } else if b < a {
        assert(line_record(ls[b]) is Some);
    }
}

/// The group of records that starts at `next`, by its end and the number of
/// payload bytes in it.
fn take_group(records: &Vec<DecodedHex>, next: usize) -> (group: (usize, usize))
    requires
        next <= records.len(),
    ensures
        group.0 == group_end(records_of(records@), next as int, PACKET_SIZE as int),
        next <= group.0 <= records.len(),
        group.1 == declared_between(records_of(records@), next as int, group.0 as int),
        group.1 <= PACKET_SIZE,
{
    let ghost all = records_of(records@);
    let mut end: usize = next;
    let mut budget: usize = PACKET_SIZE;
    while end < records.len() && records[end].len as usize <= budget
        invariant
            next <= end <= records.len(),
            all == records_of(records@),
            budget <= PACKET_SIZE,
            group_end(all, next as int, PACKET_SIZE as int) == group_end(
                all,
                end as int,
                budget as int,
            ),
            declared_between(all, next as int, end as int) == PACKET_SIZE - budget,
        decreases records.len() - end,
    {
        proof {
            assert(all[end as int] == records[end as int]@);
            lemma_declared_between_extend(all, next as int, end as int);
        }
        budget = budget - records[end].len as usize;
        end += 1;
    }
    proof {
        if end < records.len() {
            assert(all[end as int] == records[end as int]@);
        }
    }
    (end, PACKET_SIZE - budget)
}

/// One more record adds its byte count to the count of a range.
pub proof fn lemma_declared_between_extend(records: Seq<Record>, from: int, to: int)
    requires
        0 <= from <= to < records.len(),
    ensures
        declared_between(records, from, to + 1) == declared_between(records, from, to)
            + records[to].len,
    decreases to - from,
{
    if from < to {
        lemma_declared_between_extend(records, from + 1, to);
    } else {
        assert(declared_between(records, from + 1, to + 1) == 0);
    }
}

/// What is done for the records of a range is what is done for its
/// beginning and then for its last record.
pub proof fn lemma_group_actions_extend(records: Seq<Record>, from: int, to: int)
    requires
        0 <= from <= to < records.len(),
    ensures
        group_actions(records, from, to + 1) == group_actions(records, from, to) + record_actions(
            records[to],
        ),
    decreases to - from,
{
    if from < to {
        lemma_group_actions_extend(records, from + 1, to);
        assert(record_actions(records[from]) + (group_actions(records, from + 1, to)
            + record_actions(records[to])) == (record_actions(records[from]) + group_actions(
            records,
            from + 1,
            to,
        )) + record_actions(records[to]));
    } else {
        assert(group_actions(records, from + 1, to + 1) == Seq::<Action>::empty());
        assert(record_actions(records[to]) + Seq::<Action>::empty() == record_actions(
            records[to],
        ));
        assert(Seq::<Action>::empty() + record_actions(records[to]) == record_actions(
            records[to],
        ));
    }
}

/// None of the actions ends the session.
pub open spec fn goes_on(actions: Seq<Action>) -> bool {
    forall|i: int| 0 <= i < actions.len() ==> !(#[trigger] actions[i]).is_end()
}

/// Actions that go on, one run after another, go on.
pub proof fn lemma_goes_on_concat(a: Seq<Action>, b: Seq<Action>)
    requires
        goes_on(a),
        goes_on(b),
    ensures
        goes_on(a + b),
{
    assert forall|i: int| 0 <= i < (a + b).len() implies !(#[trigger] (a + b)[i]).is_end() by {
        if i < a.len() {
            assert((a + b)[i] == a[i]);
        } else {
            assert((a + b)[i] == b[i - a.len()]);
        }
    }
}

/// Appends what is done for the records from `from` up to `to`.
fn append_group(script: &mut Vec<FlashAction>, records: &Vec<DecodedHex>, from: usize, to: usize)
    requires
        from <= to <= records.len(),
        goes_on(actions_of(old(script)@)),
    ensures
        actions_of(final(script)@) == actions_of(old(script)@) + group_actions(
            records_of(records@),
            from as int,
            to as int,
        ),
        goes_on(actions_of(final(script)@)),
{
    let ghost all = records_of(records@);
    let ghost start = actions_of(script@);
    let mut i: usize = from;
    assert(start + group_actions(all, from as int, from as int) == start);
    while i < to
        invariant
            from <= i <= to <= records.len(),
            all == records_of(records@),
            actions_of(script@) == start + group_actions(all, from as int, i as int),
            goes_on(actions_of(script@)),
        decreases to - i,
    {
        let ghost before = actions_of(script@);
        let more = Flasher::local_write(records[i].address, &records[i]);
        proof {
            assert(all[i as int] == records[i as int]@);
            assert(Record { address: records[i as int].address, ..records[i as int]@ }
                == records[i as int]@);
            lemma_group_actions_extend(all, from as int, i as int);
            assert(start + (group_actions(all, from as int, i as int) + record_actions(
                all[i as int],
            )) == (start + group_actions(all, from as int, i as int)) + record_actions(
                all[i as int],
            ));
            assert(goes_on(actions_of(more@))) by {
                assert forall|k: int| 0 <= k < more.len() implies !(#[trigger] actions_of(
                    more@,
                )[k]).is_end() by {
                    assert(actions_of(more@)[k] == more[k]@);
                }
            }
            lemma_goes_on_concat(before, actions_of(more@));
        }
        append_actions(script, more);
        i += 1;
    }
}

/// The writes of a command and the wait for its acknowledgement.
fn confirmed_write(command: &Vec<u8>) -> (out: Vec<FlashAction>)
    ensures
        actions_of(out@) == pieces(command@) + seq![Action::AwaitAck],
        goes_on(actions_of(out@)),
{
    let mut out = Flasher::write(command.as_slice());
    let ghost head = actions_of(out@);
    out.push(FlashAction::AwaitAck);
    assert(actions_of(out@) == head + seq![Action::AwaitAck]);
    assert forall|i: int| 0 <= i < out.len() implies !(#[trigger] actions_of(out@)[i]).is_end() by {
        if i < head.len() {
            assert(out[i]@ is Write);
        }
    }
    out
}

/// Appends the end of a script: the action `last`, which ends the session.
fn end_script(script: &mut Vec<FlashAction>, last: FlashAction)
    requires
        goes_on(actions_of(old(script)@)),
        last@.is_end(),
    ensures
        actions_of(final(script)@) == actions_of(old(script)@) + seq![last@],
        is_script(actions_of(final(script)@)),
{
    let ghost before = actions_of(script@);
    let ghost end = last@;
    script.push(last);
    assert(actions_of(script@) == before + seq![end]);
    assert forall|i: int| 0 <= i < script.len() - 1 implies !(#[trigger] actions_of(
        script@,
    )[i]).is_end() by {
        assert(actions_of(script@)[i] == before[i]);
    }
}

/// The script of a session for a plan.
pub fn plan_script(plan: &FlashPlan) -> (script: Vec<FlashAction>)
    ensures
        actions_of(script@) == script_of_plan(records_of(plan.records@), plan.total as int),
        is_script(actions_of(script@)),
{
    let records = &plan.records;
    let ghost all = records_of(records@);
    let ghost goal = script_of_plan(all, plan.total as int);
    if records.len() == 0 {
        let mut script: Vec<FlashAction> = Vec::new();
        assert(actions_of(script@) == Seq::<Action>::empty());
        end_script(&mut script, FlashAction::Failed(FlashError::EmptyImage));
        assert(Seq::<Action>::empty() + seq![Action::Failed(FlashError::EmptyImage)] == seq![
            Action::Failed(FlashError::EmptyImage),
        ]);
        return script;
    }
    let mut erase: Vec<u8> = Vec::new();
    erase.push(69u8);
    num_to_hex(&mut erase, records[0].address);
    erase.push(35u8);
    assert(all[0] == records[0]@);
    assert(erase@ == erase_command(all[0].address));
    let mut script = confirmed_write(&erase);
    let mut next: usize = 0;
    let mut remaining: usize = plan.total;
    let ghost mut left: int = plan.total as int;
    while remaining > 0
        invariant
            0 <= next <= records.len(),
            all == records_of(records@),
            goal == actions_of(script@) + transfer_actions(all, next as int, left),
            goal == script_of_plan(records_of(plan.records@), plan.total as int),
            left > 0 ==> left == remaining,
            left <= 0 ==> remaining == 0,
            goes_on(actions_of(script@)),
        decreases records.len() - next,
    {
        let ghost start = actions_of(script@);
        let (end, bytes) = take_group(records, next);
        if end == next {
            end_script(&mut script, FlashAction::Failed(FlashError::StalledTransfer));
            return script;
        }
        append_group(&mut script, records, next, end);
        proof {
            let group = group_actions(all, next as int, end as int);
            let rest = transfer_actions(all, end as int, left - bytes);
            assert(transfer_actions(all, next as int, left) == group + rest);
            assert((start + group) + rest == start + (group + rest));
            left = left - bytes;
        }
        remaining = if bytes >= remaining {
            0
        } else {
            remaining - bytes
        };
        next = end;
    }
    let ghost before = actions_of(script@);
    let mut finish: Vec<u8> = Vec::new();
    finish.push(83u8);
    finish.push(35u8);
    assert(finish@ == finish_command());
    let last = confirmed_write(&finish);
    let ghost added = actions_of(last@);
    proof {
        lemma_goes_on_concat(before, added);
    }
    append_actions(&mut script, last);
    end_script(&mut script, FlashAction::Done);
    proof {
        assert(transfer_actions(all, next as int, left) == finish_actions());
        assert(finish_actions() == added + seq![Action::Done]) by {
            assert(seq![Action::AwaitAck, Action::Done] == seq![Action::AwaitAck] + seq![
                Action::Done,
            ]);
            assert(pieces(finish_command()) + (seq![Action::AwaitAck] + seq![Action::Done]) == (
            pieces(finish_command()) + seq![Action::AwaitAck]) + seq![Action::Done]);
        }
        assert((before + added) + seq![Action::Done] == before + (added + seq![Action::Done]));
    }
    script
}

/// The script of a session for an image.
pub fn image_script(file_content: &str) -> (script: Vec<FlashAction>)
    ensures
        actions_of(script@) == script_of_image(file_content@),
        is_script(actions_of(script@)),
{
    let ghost ls = lines(file_content@);
    match decode_lines(file_content) {
        Err(e) => {
            proof {
                match e {
                    DecodeError::MalformedLine { line_no } => {
                        let k = choose|k: int| is_first_malformed(ls, k);
                        assert(is_first_malformed(ls, line_no - 1));
                        lemma_first_malformed_is_one(ls, k, line_no - 1);
                        assert(line_record(ls[k]) is None);
                        assert(image_records(file_content@) is None);
                    },
                    DecodeError::AddressOutOfRange { .. } => {},
                }
            }
            let mut script: Vec<FlashAction> = Vec::new();
            script.push(FlashAction::Failed(FlashError::Decode(e)));
            assert(actions_of(script@) == seq![Action::Failed(FlashError::Decode(e))]);
            script
        },
        Ok(records) => {
            proof {
                assert forall|i: int| 0 <= i < ls.len() implies (#[trigger] line_record(
                    ls[i],
                )) is Some by {
                    assert(line_record(ls[i]) == Some(records[i]@));
                }
                assert(image_records(file_content@).unwrap() == records_of(records@)) by {
                    assert forall|i: int| 0 <= i < ls.len() implies line_record(ls[i]).unwrap()
                        == records_of(records@)[i] by {
                        assert(line_record(ls[i]) == Some(records[i]@));
                    }
                }
            }
            match resolve_addresses(&records) {
                Ok(plan) => plan_script(&plan),
                Err(e) => {
                    let mut script: Vec<FlashAction> = Vec::new();
                    script.push(FlashAction::Failed(FlashError::Decode(e)));
                    assert(actions_of(script@) == seq![Action::Failed(FlashError::Decode(e))]);
                    script
                },
            }
        },
    }
}

impl Flasher {
    /// One step of the flashing session.
    ///
    /// `Begin` decodes the image, resolves its addresses and starts the
    /// script of the transfer; the image is not looked at for any other
    /// event. Each later event moves the session along its script. The
    /// action that is returned is the one that the port must do next.
    pub fn flash(&mut self, event: FlashEvent, file_content: &str) -> (action: FlashAction)
        ensures
            (final(self).script(), final(self).position()) == flash_step(
                old(self).script(),
                old(self).position(),
                event,
                file_content@,
            ),
            0 <= final(self).position() < final(self).script().len(),
            is_script(final(self).script()),
            action@ == final(self).script()[final(self).position()],
    {
        proof {
            use_type_invariant(&*self);
        }
        let ghost script = actions_of(self.script@);
        assert(script[self.position as int] == self.script[self.position as int]@);
        let ended = match &self.script[self.position] {
            FlashAction::Done => true,
            FlashAction::Failed(_) => true,
            _ => false,
        };
        match event {
            FlashEvent::Begin => {
                *self = Flasher { script: image_script(file_content), position: 0 };
            },
            FlashEvent::Written => {
                let fits = match &self.script[self.position] {
                    FlashAction::Write(_) => true,
                    _ => false,
                };
                if ended {
                } else if fits {
                    assert(script.last().is_end());
                    assert(self.position != self.script.len() - 1);
                    let next = self.position + 1;
                    self.position = next;
                } else {
                    self.fail(FlashError::DeviceNotAcknowledging);
                    assert(actions_of(self.script@).len() == 1);
                }
            },
            FlashEvent::Acknowledged => {
                let fits = match &self.script[self.position] {
                    FlashAction::AwaitAck => true,
                    _ => false,
                };
                if ended {
                } else if fits {
                    assert(script.last().is_end());
                    assert(self.position != self.script.len() - 1);
                    let next = self.position + 1;
                    self.position = next;
                } else {
                    self.fail(FlashError::DeviceNotAcknowledging);
                    assert(actions_of(self.script@).len() == 1);
                }
            },
            FlashEvent::Failed(fault) => {
                if !ended {
                    let waiting = match &self.script[self.position] {
                        FlashAction::AwaitAck => true,
                        _ => false,
                    };
                    let timeout = match fault {
                        IoError::Timeout => true,
                        _ => false,
                    };
                    if waiting && timeout {
                        self.fail(FlashError::DeviceNotAcknowledging);
                    } else {
                        self.fail(FlashError::Io(fault));
                    }
                    assert(actions_of(self.script@).len() == 1);
                }
            },
        }
        assert(actions_of(self.script@).len() == self.script.len());
        assert(actions_of(self.script@)[self.position as int] == self.script[self.position as int]@);
        match &self.script[self.position] {
            FlashAction::Write(bytes) => FlashAction::Write(copy_bytes(bytes)),
            FlashAction::AwaitAck => FlashAction::AwaitAck,
            FlashAction::Done => FlashAction::Done,
            FlashAction::Failed(e) => FlashAction::Failed(*e),
        }
    }

    /// Replaces the script by the failure `e` alone.
    fn fail(&mut self, e: FlashError)
        ensures
            actions_of(final(self).script@) == seq![Action::Failed(e)],
            final(self).position == 0,
    {
        let mut script: Vec<FlashAction> = Vec::new();
        script.push(FlashAction::Failed(e));
        assert(actions_of(script@) == seq![Action::Failed(e)]);
        *self = Flasher { script, position: 0 };
    }

    /// Decodes an image, one record for each line and in the order of the
    /// lines. The image is rejected as a whole where a line is malformed:
    /// the error names the first such line, counted from one.
    pub fn ihex_decode_lines(file_content: &str) -> (decoded: Result<Vec<DecodedHex>, DecodeError>)
        ensures
            match decoded {
                Ok(records) => image_records(file_content@) == Some(records_of(records@)),
                Err(DecodeError::MalformedLine { line_no }) => is_first_malformed(
                    lines(file_content@),
                    line_no - 1,
                ),
                Err(DecodeError::AddressOutOfRange { .. }) => false,
            },
            decoded is Ok <==> image_records(file_content@) is Some,
    {
        let ghost ls = lines(file_content@);
        let decoded = decode_lines(file_content);
        proof {
            match &decoded {
                Ok(records) => {
                    assert forall|i: int| 0 <= i < ls.len() implies (#[trigger] line_record(
                        ls[i],
                    )) is Some by {
                        assert(line_record(ls[i]) == Some(records[i]@));
                    }
                    assert(image_records(file_content@).unwrap() == records_of(records@)) by {
                        assert forall|i: int| 0 <= i < ls.len() implies line_record(
                            ls[i],
                        ).unwrap() == records_of(records@)[i] by {
                            assert(line_record(ls[i]) == Some(records[i]@));
                        }
                    }
                },
                Err(DecodeError::MalformedLine { line_no }) => {
                    assert(line_record(ls[line_no - 1]) is None);
                },
                Err(DecodeError::AddressOutOfRange { .. }) => {},
            }
        }
        decoded
    }
}

} // verus!
