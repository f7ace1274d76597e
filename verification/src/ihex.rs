//! Intel-HEX firmware images: the decoder of record lines and the
//! linearizer that turns the data records into a plan of absolute
//! addresses.

use crate::error::DecodeError;
use crate::text::{copy_bytes, lines, split_lines, string_of, total_len, words_of, lemma_total_len_grows};
use vstd::prelude::*;

verus! {

/// The kind of a record, from its type byte.
#[derive(Debug, Clone, Copy, PartialEq, Eq, Structural)]
pub enum RecordType {
    /// Any type byte but `00`, `02` and `04`.
    Unknown(u8),
    /// Data, type byte `00`.
    DAT,
    /// Extended segment address, type byte `02`.
    ESA,
    /// Extended linear address, type byte `04`.
    ELA,
}

/// One decoded line of an image.
#[derive(Debug, Clone, PartialEq, Eq)]
pub struct DecodedHex {
    /// The line's text after its record marker.
    pub str: String,
    /// The number of payload bytes that the line declares.
    pub len: u8,
    /// The 16-bit address field; in a flash plan, the absolute address.
    pub address: u32,
    /// The kind of the record.
    pub record_type: RecordType,
    /// The payload.
    pub data: Vec<u8>,
}

/// What a decoded record holds.
pub struct Record {
    pub text: Seq<char>,
    pub len: u8,
    pub address: u32,
    pub record_type: RecordType,
    pub data: Seq<u8>,
}

impl View for DecodedHex {
    type V = Record;

    open spec fn view(&self) -> Record {
        Record {
            text: self.str@,
            len: self.len,
            address: self.address,
            record_type: self.record_type,
            data: self.data@,
        }
    }
}

impl Record {
    /// Whether the record sets the offset of the data records after it.
    pub open spec fn is_directive(self) -> bool {
        self.record_type is ESA || self.record_type is ELA
    }

    /// A record as the decoder gives it: the payload has the declared
    /// length, and the address is a 16-bit field.
    pub open spec fn is_decoded(self) -> bool {
        &&& self.data.len() == self.len
        &&& self.address <= 0xffff
    }

    /// The value of a directive: the number that its payload denotes, the
    /// most significant byte first.
    pub open spec fn directive_value(self) -> nat {
        payload_value(self.data)
    }
}

impl DecodedHex {
    /// Tells whether the record is one that the decoder could have given.
    pub fn is_decoded(&self) -> (yes: bool)
        ensures
            yes == self@.is_decoded(),
    {
        self.data.len() == self.len as usize && self.address <= 0xffff
    }
}

/// The number that the bytes of a payload denote, the most significant
/// first; zero for no bytes.
pub open spec fn payload_value(data: Seq<u8>) -> nat
    decreases data.len(),
{
    if data.len() == 0 {
        0
    } else {
        payload_value(data.drop_last()) * 256 + data.last() as nat
    }
}

/// The number that a hexadecimal digit stands for, in either case.
pub open spec fn hex_digit(c: char) -> Option<nat> {
    if '0' <= c <= '9' {
        Some((c as u32 - '0' as u32) as nat)
    } else if 'a' <= c <= 'f' {
        Some((c as u32 - 'a' as u32 + 10) as nat)
    } else if 'A' <= c <= 'F' {
        Some((c as u32 - 'A' as u32 + 10) as nat)
    } else {
        None
    }
}

/// The byte that the two hexadecimal digits at position `at` denote.
pub open spec fn hex_pair(s: Seq<char>, at: int) -> Option<u8> {
    if 0 <= at && at + 2 <= s.len() && hex_digit(s[at]) is Some && hex_digit(s[at + 1]) is Some {
        Some((hex_digit(s[at]).unwrap() * 16 + hex_digit(s[at + 1]).unwrap()) as u8)
    } else {
        None
    }
}

/// The kind of record that a type byte announces.
pub open spec fn record_kind(byte: u8) -> RecordType {
    if byte == 0 {
        RecordType::DAT
    } else if byte == 2 {
        RecordType::ESA
    } else if byte == 4 {
        RecordType::ELA
    } else {
        RecordType::Unknown(byte)
    }
}

/// The record that a line denotes after its record marker, where it is well
/// formed: a byte count, a 16-bit address and a type byte, each in
/// hexadecimal digits, then as many digit pairs as the byte count says.
/// What follows the payload is not looked at. The type byte alone decides
/// the kind of the record.
pub open spec fn record_of(body: Seq<char>) -> Option<Record> {
    if hex_pair(body, 0) is Some && hex_pair(body, 2) is Some && hex_pair(body, 4) is Some
        && hex_pair(body, 6) is Some {
        let count = hex_pair(body, 0).unwrap();
        let kind = record_kind(hex_pair(body, 6).unwrap());
        if forall|k: int| 0 <= k < count ==> (#[trigger] hex_pair(body, 8 + 2 * k)) is Some {
            Some(
                Record {
                    text: body,
                    len: count,
                    address: (hex_pair(body, 2).unwrap() as nat * 256 + hex_pair(
                        body,
                        4,
                    ).unwrap() as nat) as u32,
                    record_type: kind,
                    data: Seq::new(count as nat, |k: int| hex_pair(body, 8 + 2 * k).unwrap()),
                },
            )
        } else {
            None
        }
    } else {
        None
    }
}

/// The record that a whole line denotes: its first character is the record
/// marker and is skipped; an empty line denotes none.
pub open spec fn line_record(line: Seq<char>) -> Option<Record> {
    if line.len() == 0 {
        None
    } else {
        record_of(line.drop_first())
    }
}

/// Reads one hexadecimal digit.
fn read_hex_digit(c: char) -> (value: Option<u8>)
    ensures
        match hex_digit(c) {
            Some(v) => value == Some(v as u8) && v < 16,
            None => value is None,
        },
{
    if '0' <= c && c <= '9' {
        Some((c as u32 - '0' as u32) as u8)
    } else if 'a' <= c && c <= 'f' {
        Some((c as u32 - 'a' as u32 + 10) as u8)
    } else if 'A' <= c && c <= 'F' {
        Some((c as u32 - 'A' as u32 + 10) as u8)
    } else {
        None
    }
}

/// Reads the byte that the two hexadecimal digits at position `at` denote.
fn read_hex_pair(line: &[char], at: usize) -> (value: Option<u8>)
    requires
        at + 2 <= usize::MAX,
    ensures
        value == hex_pair(line@, at as int),
{
    if at + 2 > line.len() {
        return None;
    }
    match read_hex_digit(line[at]) {
        None => None,
        Some(hi) => match read_hex_digit(line[at + 1]) {
            None => None,
            Some(lo) => Some(hi * 16 + lo),
        },
    }
}

/// Decodes the text of one record, without its record marker.
///
/// Gives the record where the text is well formed, and nothing where a
/// hexadecimal digit is malformed, the text is truncated, or the payload is
/// shorter than the byte count.
#[verifier::loop_isolation(false)]
pub fn ihex_decode_line(line: &[char]) -> (decoded: Option<DecodedHex>)
    ensures
        match record_of(line@) {
            Some(record) => decoded is Some && decoded.unwrap()@ == record,
            None => decoded is None,
        },
        decoded is Some ==> decoded.unwrap()@.is_decoded(),
        decoded is Some ==> 2 * decoded.unwrap()@.len <= line@.len(),
{
    let byte_count = match read_hex_pair(line, 0) {
        Some(b) => b,
        None => {
            return None;
        },
    };
    let high = match read_hex_pair(line, 2) {
        Some(b) => b,
        None => {
            return None;
        },
    };
    let low = match read_hex_pair(line, 4) {
        Some(b) => b,
        None => {
            return None;
        },
    };
    let record_byte = match read_hex_pair(line, 6) {
        Some(b) => b,
        None => {
            return None;
        },
    };
    let record_type = if record_byte == 0 {
        RecordType::DAT
    } else if record_byte == 2 {
        RecordType::ESA
    } else if record_byte == 4 {
        RecordType::ELA
    } else {
        RecordType::Unknown(record_byte)
    };
    let mut data: Vec<u8> = Vec::new();
    let mut k: usize = 0;
    while k < byte_count as usize
        invariant
            0 <= k <= byte_count,
            data.len() == k,
            forall|j: int| 0 <= j < k ==> hex_pair(line@, 8 + 2 * j) == Some(#[trigger] data@[j]),
            forall|j: int| 0 <= j < k ==> (#[trigger] hex_pair(line@, 8 + 2 * j)) is Some,
        decreases byte_count - k,
    {
        match read_hex_pair(line, 8 + 2 * k) {
            Some(b) => {
                data.push(b);
            },
            None => {
                assert(hex_pair(line@, 8 + 2 * (k as int)) is None);
                return None;
            },
        }
        k += 1;
    }
    let mut copy: Vec<char> = Vec::new();
    let mut i: usize = 0;
    while i < line.len()
        invariant
            0 <= i <= line.len(),
            copy@ == line@.take(i as int),
        decreases line.len() - i,
    {
        copy.push(line[i]);
        i += 1;
    }
    assert(line@.take(line.len() as int) == line@);
    let address: u32 = high as u32 * 256 + low as u32;
    assert(data@ == record_of(line@).unwrap().data);
    if byte_count > 0 {
        assert(hex_pair(line@, 8 + 2 * (byte_count - 1)) is Some);
    }
    Some(DecodedHex { str: string_of(&copy), len: byte_count, address, record_type, data })
}

/// The records that the lines of an image denote, where every line denotes
/// one.
pub open spec fn image_records(text: Seq<char>) -> Option<Seq<Record>> {
    let ls = lines(text);
    if forall|i: int| 0 <= i < ls.len() ==> (#[trigger] line_record(ls[i])) is Some {
        Some(Seq::new(ls.len(), |i: int| line_record(ls[i]).unwrap()))
    } else {
        None
    }
}

/// Whether line number `k`, counted from zero, is the first line that
/// denotes no record.
pub open spec fn is_first_malformed(ls: Seq<Seq<char>>, k: int) -> bool {
    &&& 0 <= k < ls.len()
    &&& line_record(ls[k]) is None
    &&& forall|j: int| 0 <= j < k ==> (#[trigger] line_record(ls[j])) is Some
}

/// Decodes an image, one record for each line and in the order of the
/// lines.
///
/// The image is rejected as a whole where a line is malformed: the error
/// names the first such line, counted from one.
pub fn decode_lines(file_content: &str) -> (decoded: Result<Vec<DecodedHex>, DecodeError>)
    ensures
        match decoded {
            Ok(records) => {
                &&& records.len() == lines(file_content@).len()
                &&& forall|i: int|
                    0 <= i < records.len() ==> line_record(lines(file_content@)[i]) == Some(
                        #[trigger] records[i]@,
                    )
                &&& forall|i: int| 0 <= i < records.len() ==> (#[trigger] records[i]@).is_decoded()
                &&& declared_bytes(records_of(records@)) <= usize::MAX
            },
            Err(DecodeError::MalformedLine { line_no }) => is_first_malformed(
                lines(file_content@),
                line_no - 1,
            ),
            Err(DecodeError::AddressOutOfRange { .. }) => false,
        },
{
    let all = split_lines(file_content);
    let ghost ls = lines(file_content@);
    let mut records: Vec<DecodedHex> = Vec::new();
    let mut i: usize = 0;
    assert(ls.take(0) == Seq::<Seq<char>>::empty());
    while i < all.len()
        invariant
            0 <= i <= all.len(),
            ls == words_of(all@),
            ls == lines(file_content@),
            records.len() == i,
            forall|j: int| 0 <= j < i ==> line_record(ls[j]) == Some(#[trigger] records[j]@),
            forall|j: int| 0 <= j < i ==> (#[trigger] line_record(ls[j])) is Some,
            forall|j: int| 0 <= j < i ==> (#[trigger] records[j]@).is_decoded(),
            total_len(ls) <= usize::MAX,
            2 * declared_bytes(records_of(records@)) <= total_len(ls.take(i as int)),
        decreases all.len() - i,
    {
        let line = &all[i];
        assert(ls[i as int] == line@);
        if line.len() == 0 {
            return Err(DecodeError::MalformedLine { line_no: i + 1 });
        }
        let body = vstd::slice::slice_subrange(line.as_slice(), 1, line.len());
        assert(body@ == line@.drop_first());
        match ihex_decode_line(body) {
            Some(record) => {
                let ghost before = records_of(records@);
                records.push(record);
                proof {
                    assert(records_of(records@) == before.push(record@));
                    assert(records_of(records@).drop_last() == before);
                    assert(ls.take(i + 1).drop_last() == ls.take(i as int));
                    assert(ls.take(i + 1).last() == line@);
                }
            },
            None => {
                return Err(DecodeError::MalformedLine { line_no: i + 1 });
            },
        }
        i += 1;
    }
    proof {
        lemma_total_len_grows(ls, ls.len() as int);
        assert(ls.take(ls.len() as int) == ls);
    }
    Ok(records)
}

/// The factor by which a directive's value becomes an offset: sixteen for a
/// segment address, 65536 for a linear address.
pub open spec fn offset_factor(kind: RecordType) -> nat {
    match kind {
        RecordType::ESA => 16,
        _ => 65536,
    }
}

/// The offset that the directives among `records` leave active: that of
/// the last of them, sixteen times the value of a segment address or 65536
/// times the value of a linear address; zero where there is none.
pub open spec fn active_offset(records: Seq<Record>) -> nat
    decreases records.len(),
{
    if records.len() == 0 {
        0
    } else {
        let last = records.last();
        if last.is_directive() {
            last.directive_value() * offset_factor(last.record_type)
        } else {
            active_offset(records.drop_last())
        }
    }
}

/// What a pass over records has come to: the plan so far, and the offset
/// that is active.
pub struct Resolution {
    pub plan: Seq<Record>,
    pub offset: nat,
}

/// What one record does to a pass, or nothing where the record has no place
/// in 32 bits.
///
/// A directive replaces the offset by its value times its factor; it must
/// carry at least one byte, and the offset must be a number of 32 bits. A
/// data record enters the plan with the offset added to its address, which
/// must give a number of 32 bits. A record of unknown kind changes nothing.
pub open spec fn resolve_step(state: Resolution, record: Record) -> Option<Resolution> {
    match record.record_type {
        RecordType::DAT => if record.address + state.offset <= u32::MAX {
            Some(
                Resolution {
                    plan: state.plan.push(
                        Record { address: (record.address + state.offset) as u32, ..record },
                    ),
                    offset: state.offset,
                },
            )
        } else {
            None
        },
        RecordType::Unknown(_) => Some(state),
        _ => {
            let offset = record.directive_value() * offset_factor(record.record_type);
            if record.data.len() > 0 && offset <= u32::MAX {
                Some(Resolution { plan: state.plan, offset })
            } else {
                None
            }
        },
    }
}

/// The pass over `records` in their order, from an empty plan and no
/// offset: what it comes to, or the position of the first record that has
/// no place in 32 bits.
pub open spec fn resolution(records: Seq<Record>) -> Result<Resolution, int>
    decreases records.len(),
{
    if records.len() == 0 {
        Ok(Resolution { plan: Seq::empty(), offset: 0 })
    } else {
        match resolution(records.drop_last()) {
            Err(k) => Err(k),
            Ok(state) => match resolve_step(state, records.last()) {
                Some(next) => Ok(next),
                None => Err(records.len() - 1),
            },
        }
    }
}

/// The plan that the pass over `records` comes to; no plan where the pass
/// fails.
pub open spec fn resolved(records: Seq<Record>) -> Seq<Record> {
    match resolution(records) {
        Ok(pass) => pass.plan,
        Err(_) => Seq::empty(),
    }
}

/// The number of payload bytes that the records declare together.
pub open spec fn declared_bytes(records: Seq<Record>) -> nat
    decreases records.len(),
{
    if records.len() == 0 {
        0
    } else {
        declared_bytes(records.drop_last()) + records.last().len as nat
    }
}

/// The first records declare no more bytes than all the records.
pub proof fn lemma_declared_bytes_grows(records: Seq<Record>, k: int)
    requires
        0 <= k <= records.len(),
    ensures
        declared_bytes(records.take(k)) <= declared_bytes(records),
    decreases records.len(),
{
    if k == records.len() {
        assert(records.take(k) == records);
    } else {
        lemma_declared_bytes_grows(records.drop_last(), k);
        assert(records.drop_last().take(k) == records.take(k));
    }
}

/// The records that a vector holds.
pub open spec fn records_of(v: Seq<DecodedHex>) -> Seq<Record> {
    Seq::new(v.len(), |i: int| v[i]@)
}

/// The data records of an image in line order, with absolute addresses, and
/// the number of payload bytes in them.
#[derive(Debug, Clone, PartialEq, Eq)]
pub struct FlashPlan {
    /// The data records; `address` is absolute.
    pub records: Vec<DecodedHex>,
    /// The sum of the records' byte counts.
    pub total: usize,
}

impl FlashPlan {
    /// A plan holds data records only, each with a payload of the declared
    /// length, and its total is the sum of their byte counts.
    pub open spec fn well_formed(&self) -> bool {
        &&& forall|i: int|
            0 <= i < self.records.len() ==> {
                &&& (#[trigger] self.records[i]@).record_type is DAT
                &&& self.records[i]@.data.len() == self.records[i]@.len
            }
        &&& self.total == declared_bytes(records_of(self.records@))
    }
}

/// A longer payload denotes no smaller number than its beginning.
pub proof fn lemma_payload_value_grows(data: Seq<u8>, k: int)
    requires
        0 <= k <= data.len(),
    ensures
        payload_value(data.take(k)) <= payload_value(data),
    decreases data.len(),
{
    if k == data.len() {
        assert(data.take(k) == data);
    } else {
        lemma_payload_value_grows(data.drop_last(), k);
        assert(data.drop_last().take(k) == data.take(k));
    }
}

/// The offset that a payload gives with a factor, where it is a number of
/// 32 bits.
fn payload_offset(data: &Vec<u8>, factor: u32) -> (offset: Option<u32>)
    requires
        1 <= factor <= 65536,
    ensures
        offset == if payload_value(data@) * factor <= u32::MAX {
            Some((payload_value(data@) * factor) as u32)
        } else {
            None
        },
{
    let mut value: u64 = 0;
    let mut i: usize = 0;
    assert(data@.take(0) == Seq::<u8>::empty());
    while i < data.len()
        invariant
            0 <= i <= data.len(),
            1 <= factor <= 65536,
            value == payload_value(data@.take(i as int)),
            value <= u32::MAX,
        decreases data.len() - i,
    {
        assert(data@.take(i + 1).drop_last() == data@.take(i as int));
        assert(data@.take(i + 1).last() == data@[i as int]);
        let next: u64 = value * 256 + data[i] as u64;
        if next > u32::MAX as u64 {
            proof {
                lemma_payload_value_grows(data@, i + 1);
                let whole = payload_value(data@);
                assert(whole * factor >= whole) by (nonlinear_arith)
                    requires
                        factor >= 1,
                        whole >= 0,
                ;
            }
            return None;
        }
        value = next;
        i += 1;
    }
    assert(data@.take(data.len() as int) == data@);
    assert(value * factor <= 0xffff_ffff * 65536) by (nonlinear_arith)
        requires
            0 <= value <= 0xffff_ffff,
            1 <= factor <= 65536,
    ;
    let product: u64 = value * factor as u64;
    assert(product == payload_value(data@) * factor) by (nonlinear_arith)
        requires
            product == value * factor,
            value == payload_value(data@),
    ;
    if product > u32::MAX as u64 {
        None
    } else {
        Some(product as u32)
    }
}

/// Resolves the records of an image into a flash plan.
///
/// One pass in line order. A segment directive sets the offset to sixteen
/// times its value, a linear directive to 65536 times its value; each
/// replaces whatever offset was active. The value of a directive is the
/// number that its payload denotes, whatever its length. A data record
/// enters the plan with the active offset added to its address. Records of
/// unknown kind are passed over.
///
/// The image is rejected where a record has no place in 32 bits: a
/// directive that carries no byte, an offset beyond 32 bits, or a data
/// record whose absolute address is beyond 32 bits. The error names the
/// first such record, counted from one.
pub fn resolve_addresses(records: &Vec<DecodedHex>) -> (plan: Result<FlashPlan, DecodeError>)
    requires
        forall|i: int| 0 <= i < records.len() ==> (#[trigger] records[i]@).is_decoded(),
        declared_bytes(records_of(records@)) <= usize::MAX,
    ensures
        match resolution(records_of(records@)) {
            Ok(pass) => {
                &&& plan matches Ok(p)
                &&& records_of(p.records@) == pass.plan
                &&& p.total == declared_bytes(pass.plan)
                &&& p.well_formed()
            },
            Err(k) => plan == Err::<FlashPlan, DecodeError>(
                DecodeError::AddressOutOfRange { line_no: (k + 1) as usize },
            ),
        },
{
    let ghost all = records_of(records@);
    let mut out: Vec<DecodedHex> = Vec::new();
    let mut total: usize = 0;
    let mut offset: u32 = 0;
    let mut i: usize = 0;
    assert(all.take(0) == Seq::<Record>::empty());
    assert(records_of(out@) == Seq::<Record>::empty());
    while i < records.len()
        invariant
            0 <= i <= records.len(),
            all == records_of(records@),
            forall|j: int| 0 <= j < records.len() ==> (#[trigger] records[j]@).is_decoded(),
            resolution(all.take(i as int)) == Ok::<Resolution, int>(
                Resolution { plan: records_of(out@), offset: offset as nat },
            ),
            total == declared_bytes(records_of(out@)),
            total <= declared_bytes(all.take(i as int)),
            declared_bytes(all) <= usize::MAX,
            forall|j: int|
                0 <= j < out.len() ==> {
                    &&& (#[trigger] out[j]@).record_type is DAT
                    &&& out[j]@.data.len() == out[j]@.len
                },
        decreases records.len() - i,
    {
        let record = &records[i];
        let ghost head = all.take(i as int);
        let ghost next = all.take(i + 1);
        let ghost state = Resolution { plan: records_of(out@), offset: offset as nat };
        proof {
            assert(next.drop_last() == head);
            assert(next.last() == record@);
            assert(record@.is_decoded());
            lemma_declared_bytes_grows(all, i + 1);
        }
        match record.record_type {
            RecordType::ESA => {
                let found = if record.data.len() == 0 {
                    None
                } else {
                    payload_offset(&record.data, 16)
                };
                match found {
                    Some(value) => {
                        offset = value;
                    },
                    None => {
                        proof {
                            assert(resolve_step(state, record@) is None);
                            lemma_resolution_fails(all, i + 1);
                        }
                        return Err(DecodeError::AddressOutOfRange { line_no: i + 1 });
                    },
                }
            },
            RecordType::ELA => {
                let found = if record.data.len() == 0 {
                    None
                } else {
                    payload_offset(&record.data, 65536)
                };
                match found {
                    Some(value) => {
                        offset = value;
                    },
                    None => {
                        proof {
                            assert(resolve_step(state, record@) is None);
                            lemma_resolution_fails(all, i + 1);
                        }
                        return Err(DecodeError::AddressOutOfRange { line_no: i + 1 });
                    },
                }
            },
            RecordType::DAT => {
                if record.address > u32::MAX - offset {
                    proof {
                        assert(resolve_step(state, record@) is None);
                        lemma_resolution_fails(all, i + 1);
                    }
                    return Err(DecodeError::AddressOutOfRange { line_no: i + 1 });
                }
                let ghost before = records_of(out@);
                let placed = DecodedHex {
                    str: record.str.clone(),
                    len: record.len,
                    address: record.address + offset,
                    record_type: RecordType::DAT,
                    data: copy_bytes(&record.data),
                };
                assert(placed@ == Record {
                    address: (record@.address + state.offset) as u32,
                    ..record@
                });
                out.push(placed);
                total = total + record.len as usize;
                assert(records_of(out@) == before.push(placed@));
                assert(records_of(out@).drop_last() == before);
            },
            RecordType::Unknown(_) => {},
        }
        i += 1;
    }
    assert(all.take(records.len() as int) == all);
    Ok(FlashPlan { records: out, total })
}

/// Where the pass over the first records fails, the pass over all records
/// fails at the same record.
pub proof fn lemma_resolution_fails(records: Seq<Record>, k: int)
    requires
        0 <= k <= records.len(),
        resolution(records.take(k)) is Err,
    ensures
        resolution(records) == resolution(records.take(k)),
    decreases records.len(),
{
    if k == records.len() {
        assert(records.take(k) == records);
    } else {
        assert(records.drop_last().take(k) == records.take(k));
        lemma_resolution_fails(records.drop_last(), k);
    }
}

/// The number of payload bytes that the records hold together.
pub open spec fn payload_bytes(records: Seq<Record>) -> nat
    decreases records.len(),
{
    if records.len() == 0 {
        0
    } else {
        payload_bytes(records.drop_last()) + records.last().data.len()
    }
}

/// The number of payload bytes that the data records among `records`
/// declare together.
pub open spec fn declared_data_bytes(records: Seq<Record>) -> nat
    decreases records.len(),
{
    if records.len() == 0 {
        0
    } else if records.last().record_type is DAT {
        declared_data_bytes(records.drop_last()) + records.last().len as nat
    } else {
        declared_data_bytes(records.drop_last())
    }
}

/// Where the pass over records comes to an end, the pass over the first of
/// them does, and its plan is the beginning of the whole plan.
pub proof fn lemma_resolution_prefix(records: Seq<Record>, k: int)
    requires
        0 <= k <= records.len(),
        resolution(records) is Ok,
    ensures
        resolution(records.take(k)) is Ok,
        resolved(records.take(k)).len() <= resolved(records).len(),
        resolved(records).take(
            resolved(records.take(k)).len() as int,
        ) == resolved(records.take(k)),
    decreases records.len(),
{
    let whole = resolved(records);
    if k == records.len() {
        assert(records.take(k) == records);
        assert(whole.take(whole.len() as int) == whole);
    } else {
        let head = records.drop_last();
        assert(head.take(k) == records.take(k));
        lemma_resolution_prefix(head, k);
        let part = resolved(records.take(k));
        let before = resolved(head);
        assert(before.take(part.len() as int) == part);
        if records.last().record_type is DAT {
            assert(whole.take(part.len() as int) == before.take(part.len() as int));
        }
    }
}

/// The offset that a pass has come to is the offset that the most recent
/// directive set, and it is a number of 32 bits.
pub proof fn lemma_resolution_offset(records: Seq<Record>)
    requires
        resolution(records) is Ok,
    ensures
        resolution(records) matches Ok(pass) && pass.offset == active_offset(records),
        active_offset(records) <= u32::MAX,
    decreases records.len(),
{
    if records.len() > 0 {
        lemma_resolution_offset(records.drop_last());
    }
}

/// The address of every record of the plan is the address field of its line
/// plus the offset that the most recent directive before that line set:
/// sixteen times a segment value or 65536 times a linear value. Its payload
/// and byte count are those of the line.
///
/// The data record at position `k` of the image stands in the plan at the
/// position that counts the data records before it.
pub proof fn lemma_resolved_address(records: Seq<Record>, k: int)
    requires
        resolution(records) is Ok,
        0 <= k < records.len(),
        records[k].record_type is DAT,
    ensures
        ({
            let plan = resolved(records);
            let rank = resolved(records.take(k)).len() as int;
            &&& resolution(records.take(k)) is Ok
            &&& rank < plan.len()
            &&& plan[rank].address == records[k].address + active_offset(records.take(k))
            &&& plan[rank].data == records[k].data
            &&& plan[rank].len == records[k].len
            &&& plan[rank].record_type is DAT
        }),
{
    let head = records.take(k);
    let next = records.take(k + 1);
    assert(next.drop_last() == head);
    assert(next.last() == records[k]);
    lemma_resolution_prefix(records, k + 1);
    lemma_resolution_prefix(records, k);
    lemma_resolution_offset(head);
    let rank = resolved(head).len() as int;
    let part = resolved(next);
    assert(part[rank] == resolved(records).take(part.len() as int)[rank]);
}

/// The plan holds as many payload bytes as the data lines of the image
/// declare together, and its total counts them.
pub proof fn lemma_resolved_bytes(records: Seq<Record>)
    requires
        forall|i: int| 0 <= i < records.len() ==> (#[trigger] records[i]).is_decoded(),
        resolution(records) is Ok,
    ensures
        payload_bytes(resolved(records)) == declared_data_bytes(records),
        declared_bytes(resolved(records)) == declared_data_bytes(records),
    decreases records.len(),
{
    if records.len() > 0 {
        let head = records.drop_last();
        let last = records.last();
        assert(last.is_decoded());
        assert forall|i: int| 0 <= i < head.len() implies (#[trigger] head[i]).is_decoded() by {
            assert(head[i] == records[i]);
        }
        lemma_resolved_bytes(head);
        if last.record_type is DAT {
            assert(resolved(records).drop_last() == resolved(head));
        }
    }
}

/// A record that a line denotes is a record as the decoder gives it.
pub proof fn lemma_line_record_is_decoded(line: Seq<char>)
    requires
        line_record(line) is Some,
    ensures
        line_record(line).unwrap().is_decoded(),
{
}

/// Of every image whose lines are all well formed and whose records all
/// have a place in 32 bits: the plan holds as many payload bytes as the data
/// lines declare together, and the data record at line `k` stands in the
/// plan with the address field of the line plus the offset that the most
/// recent directive before the line set.
pub proof fn lemma_plan_of_image(text: Seq<char>, k: int)
    requires
        image_records(text) is Some,
        resolution(image_records(text).unwrap()) is Ok,
        0 <= k < image_records(text).unwrap().len(),
        image_records(text).unwrap()[k].record_type is DAT,
    ensures
        ({
            let records = image_records(text).unwrap();
            let plan = resolved(records);
            let rank = resolved(records.take(k)).len() as int;
            &&& payload_bytes(plan) == declared_data_bytes(records)
            &&& declared_bytes(plan) == declared_data_bytes(records)
            &&& rank < plan.len()
            &&& plan[rank].address == records[k].address + active_offset(records.take(k))
            &&& plan[rank].data == records[k].data
            &&& plan[rank].len == records[k].len
        }),
{
    let records = image_records(text).unwrap();
    assert forall|i: int| 0 <= i < records.len() implies (#[trigger] records[i]).is_decoded() by {
        lemma_line_record_is_decoded(lines(text)[i]);
    }
    lemma_resolved_bytes(records);
    lemma_resolved_address(records, k);
}

} // verus!
