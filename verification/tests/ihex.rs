use dygma_focus::error::DecodeError;
use dygma_focus::ihex::{decode_lines, ihex_decode_line, resolve_addresses, RecordType};
use dygma_focus::text::split_lines;

fn chars(s: &str) -> Vec<char> {
    s.chars().collect()
}

#[test]
fn decode_one_data_line() {
    let line = chars("10010000214601360121470136007EFE09D2190140");
    let record = ihex_decode_line(&line).unwrap();
    assert_eq!(record.str, "10010000214601360121470136007EFE09D2190140");
    assert_eq!(record.len, 0x10);
    assert_eq!(record.address, 0x0100);
    assert_eq!(record.record_type, RecordType::DAT);
    assert_eq!(
        record.data,
        vec![
            0x21, 0x46, 0x01, 0x36, 0x01, 0x21, 0x47, 0x01, 0x36, 0x00, 0x7E, 0xFE, 0x09, 0xD2,
            0x19, 0x01
        ]
    );
    assert!(record.is_decoded());
}

#[test]
fn decode_takes_hex_digits_of_either_case() {
    let record = ihex_decode_line(&chars("02abCD00eFfe")).unwrap();
    assert_eq!(record.len, 2);
    assert_eq!(record.address, 0xabcd);
    assert_eq!(record.data, vec![0xef, 0xfe]);
}

#[test]
fn decode_maps_the_type_byte() {
    assert_eq!(ihex_decode_line(&chars("00000000")).unwrap().record_type, RecordType::DAT);
    assert_eq!(ihex_decode_line(&chars("00000001FF")).unwrap().record_type, RecordType::Unknown(1));
    assert_eq!(ihex_decode_line(&chars("020000021200EA")).unwrap().record_type, RecordType::ESA);
    assert_eq!(ihex_decode_line(&chars("0400000300003800C1")).unwrap().record_type, RecordType::Unknown(3));
    assert_eq!(ihex_decode_line(&chars("020000040800F2")).unwrap().record_type, RecordType::ELA);
    assert_eq!(ihex_decode_line(&chars("04000005000000CD2A")).unwrap().record_type, RecordType::Unknown(5));
    assert_eq!(ihex_decode_line(&chars("000000FF")).unwrap().record_type, RecordType::Unknown(0xff));
}

#[test]
fn decode_does_not_look_past_the_payload() {
    let record = ihex_decode_line(&chars("0100100055zz and more")).unwrap();
    assert_eq!(record.data, vec![0x55]);
    assert_eq!(record.str, "0100100055zz and more");
}

#[test]
fn decode_refuses_malformed_lines() {
    // truncated header
    assert_eq!(ihex_decode_line(&chars("")), None);
    assert_eq!(ihex_decode_line(&chars("0100000")), None);
    // payload shorter than the byte count
    assert_eq!(ihex_decode_line(&chars("0200000011")), None);
    assert_eq!(ihex_decode_line(&chars("02000000112")), None);
    // malformed digits
    assert_eq!(ihex_decode_line(&chars("0g00000011")), None);
    assert_eq!(ihex_decode_line(&chars("01000x0011")), None);
    assert_eq!(ihex_decode_line(&chars("010000001h")), None);
    assert_eq!(ihex_decode_line(&chars("+1000000112")), None);
    assert_eq!(ihex_decode_line(&chars("01 0000011")), None);
}

#[test]
fn decode_takes_a_directive_of_any_byte_count() {
    let r = ihex_decode_line(&chars("0100000212")).unwrap();
    assert_eq!((r.record_type, r.len, r.data.clone()), (RecordType::ESA, 1, vec![0x12]));
    let r = ihex_decode_line(&chars("03000004120000")).unwrap();
    assert_eq!((r.record_type, r.len, r.data.clone()), (RecordType::ELA, 3, vec![0x12, 0, 0]));
    let r = ihex_decode_line(&chars("00000002")).unwrap();
    assert_eq!((r.record_type, r.len, r.data.clone()), (RecordType::ESA, 0, vec![]));
    let r = ihex_decode_line(&chars("00123404")).unwrap();
    assert_eq!((r.record_type, r.len, r.address), (RecordType::ELA, 0, 0x1234));
    assert!(r.is_decoded());
}

#[test]
fn decode_gives_every_byte_count_for_every_kind() {
    for kind in [0u8, 1, 2, 3, 4, 5, 0x80, 0xff] {
        for count in [0usize, 1, 2, 3, 0x7f, 0x80, 0xfe, 0xff] {
            let mut line = format!("{:02X}ABCD{:02X}", count, kind);
            for i in 0..count {
                line.push_str(&format!("{:02x}", (i * 3) % 256));
            }
            let r = ihex_decode_line(&chars(&line)).unwrap();
            assert_eq!(r.len as usize, count);
            assert_eq!(r.data.len(), count);
            assert_eq!(r.address, 0xABCD);
            let expected = match kind {
                0 => RecordType::DAT,
                2 => RecordType::ESA,
                4 => RecordType::ELA,
                b => RecordType::Unknown(b),
            };
            assert_eq!(r.record_type, expected);
            if count > 0 {
                assert_eq!(r.data[count - 1] as usize, ((count - 1) * 3) % 256);
                line.pop();
                assert_eq!(ihex_decode_line(&chars(&line)), None);
            }
        }
    }
}

#[test]
fn decode_the_longest_record() {
    let mut line = String::from("FF123400");
    for i in 0..255u32 {
        line.push_str(&format!("{:02X}", i));
    }
    let record = ihex_decode_line(&chars(&line)).unwrap();
    assert_eq!(record.len, 255);
    assert_eq!(record.data.len(), 255);
    assert_eq!(record.data[254], 254);
    line.pop();
    assert_eq!(ihex_decode_line(&chars(&line)), None);
}

#[test]
fn lines_are_split_at_line_feeds() {
    let texts = |v: Vec<Vec<char>>| -> Vec<String> { v.into_iter().map(|l| l.into_iter().collect()).collect() };
    assert_eq!(texts(split_lines("")), Vec::<String>::new());
    assert_eq!(texts(split_lines("a")), vec!["a"]);
    assert_eq!(texts(split_lines("a\n")), vec!["a"]);
    assert_eq!(texts(split_lines("a\nb")), vec!["a", "b"]);
    assert_eq!(texts(split_lines("a\r\nb\r\n")), vec!["a", "b"]);
    assert_eq!(texts(split_lines("a\n\nb")), vec!["a", "", "b"]);
    assert_eq!(texts(split_lines("\n")), vec![""]);
    assert_eq!(texts(split_lines("a\rb\r")), vec!["a\rb"]);
    assert_eq!(texts(split_lines("a\r\r\n")), vec!["a\r"]);
}

const IMAGE: &str = ":020000040800F2\r\n:10000000000102030405060708090A0B0C0D0E0F78\r\n:0400100010111213A6\r\n:020000021000EC\r\n:03002000AABBCCAC\r\n:00000001FF\r\n";

#[test]
fn decode_an_image() {
    let records = decode_lines(IMAGE).unwrap();
    assert_eq!(records.len(), 6);
    assert_eq!(records[0].record_type, RecordType::ELA);
    assert_eq!(records[0].data, vec![0x08, 0x00]);
    assert_eq!(records[1].record_type, RecordType::DAT);
    assert_eq!(records[1].address, 0);
    assert_eq!(records[1].len, 16);
    assert_eq!(records[1].str, "10000000000102030405060708090A0B0C0D0E0F78");
    assert_eq!(records[2].address, 0x10);
    assert_eq!(records[2].data, vec![0x10, 0x11, 0x12, 0x13]);
    assert_eq!(records[3].record_type, RecordType::ESA);
    assert_eq!(records[4].address, 0x20);
    assert_eq!(records[5].record_type, RecordType::Unknown(1));
    assert_eq!(records[5].len, 0);
}

#[test]
fn resolve_an_image() {
    let records = decode_lines(IMAGE).unwrap();
    let plan = resolve_addresses(&records).unwrap();
    assert_eq!(plan.total, 16 + 4 + 3);
    assert_eq!(plan.records.len(), 3);
    // after the linear directive 0x0800: offset 0x0800 * 65536
    assert_eq!(plan.records[0].address, 0x0800_0000);
    assert_eq!(plan.records[1].address, 0x0800_0010);
    // after the segment directive 0x1000: offset 0x1000 * 16, the linear offset is gone
    assert_eq!(plan.records[2].address, 0x0001_0020);
    assert_eq!(plan.records[2].data, vec![0xAA, 0xBB, 0xCC]);
    assert_eq!(plan.records[2].len, 3);
    assert_eq!(plan.records[2].record_type, RecordType::DAT);
    assert_eq!(plan.records[0].str, records[1].str);
}

#[test]
fn resolve_without_directives_keeps_the_addresses() {
    let records = decode_lines(":0112340055\n:01FFFF0066\n").unwrap();
    let plan = resolve_addresses(&records).unwrap();
    assert_eq!(plan.total, 2);
    assert_eq!(plan.records[0].address, 0x1234);
    assert_eq!(plan.records[1].address, 0xFFFF);
}

#[test]
fn resolve_the_largest_offsets() {
    let records = decode_lines(":02000004FFFF\n:01FFFF0066\n:02000002FFFF\n:01FFFF0077\n").unwrap();
    let plan = resolve_addresses(&records).unwrap();
    assert_eq!(plan.records[0].address, 0xFFFF_FFFF);
    assert_eq!(plan.records[1].address, 0xFFFF0 + 0xFFFF);
}

#[test]
fn resolve_nothing() {
    let plan = resolve_addresses(&Vec::new()).unwrap();
    assert_eq!(plan.total, 0);
    assert!(plan.records.is_empty());
    let records = decode_lines(":020000040800F2\n:00000001FF").unwrap();
    let plan = resolve_addresses(&records).unwrap();
    assert_eq!(plan.total, 0);
    assert!(plan.records.is_empty());
}

#[test]
fn decode_names_the_first_malformed_line() {
    assert_eq!(decode_lines(":00000001FF\n:01000000\n:zz"), Err(DecodeError::MalformedLine { line_no: 2 }));
    assert_eq!(decode_lines(":0000000"), Err(DecodeError::MalformedLine { line_no: 1 }));
    assert_eq!(decode_lines(":00000001FF\n\n:00000001FF\n"), Err(DecodeError::MalformedLine { line_no: 2 }));
    assert_eq!(decode_lines("\n"), Err(DecodeError::MalformedLine { line_no: 1 }));
    assert_eq!(decode_lines(":00000001FF\n:00000001FF\n:01000002"), Err(DecodeError::MalformedLine { line_no: 3 }));
    // a directive of another byte count than two is a record like any other
    assert_eq!(decode_lines(":00000001FF\n:0100000212\n:00000004").unwrap().len(), 3);
}

#[test]
fn decode_skips_the_record_marker_whatever_it_is() {
    let records = decode_lines("x00000001FF\n\u{e9}00000001FF").unwrap();
    assert_eq!(records.len(), 2);
    assert_eq!(records[1].str, "00000001FF");
}

#[test]
fn decode_of_an_empty_text_is_no_record() {
    assert_eq!(decode_lines(""), Ok(vec![]));
}

#[test]
fn resolve_reads_the_value_of_a_directive_of_any_length() {
    // one byte: 0x12 * 16
    let records = decode_lines(":0100000212\n:0100010055\n").unwrap();
    assert_eq!(resolve_addresses(&records).unwrap().records[0].address, 0x120 + 1);
    // four bytes with leading zeros: 0x0800 * 65536
    let records = decode_lines(":0400000400000800\n:0100010055\n").unwrap();
    assert_eq!(resolve_addresses(&records).unwrap().records[0].address, 0x0800_0001);
    // three bytes: 0x012345 * 16
    let records = decode_lines(":03000002012345\n:01FFFF0055\n").unwrap();
    assert_eq!(resolve_addresses(&records).unwrap().records[0].address, 0x12_3450 + 0xFFFF);
    // the largest offsets of 32 bits
    let records = decode_lines(":040000020FFFFFFF\n:01000F0055\n").unwrap();
    assert_eq!(resolve_addresses(&records).unwrap().records[0].address, 0xFFFF_FFFF);
    let records = decode_lines(":040000040000FFFF\n:01FFFF0055\n").unwrap();
    assert_eq!(resolve_addresses(&records).unwrap().records[0].address, 0xFFFF_FFFF);
}

#[test]
fn resolve_rejects_a_directive_without_a_value() {
    let records = decode_lines(":0100010055\n:00000002\n:0100010055\n").unwrap();
    assert_eq!(resolve_addresses(&records), Err(DecodeError::AddressOutOfRange { line_no: 2 }));
    let records = decode_lines(":00000004\n").unwrap();
    assert_eq!(resolve_addresses(&records), Err(DecodeError::AddressOutOfRange { line_no: 1 }));
}

#[test]
fn resolve_rejects_an_offset_beyond_32_bits() {
    // 0x10000 * 65536
    let records = decode_lines(":00000001FF\n:03000004010000\n").unwrap();
    assert_eq!(resolve_addresses(&records), Err(DecodeError::AddressOutOfRange { line_no: 2 }));
    // 0x10000000 * 16
    let records = decode_lines(":0400000210000000\n").unwrap();
    assert_eq!(resolve_addresses(&records), Err(DecodeError::AddressOutOfRange { line_no: 1 }));
    // a value beyond 32 bits by itself
    let records = decode_lines(":050000020100000000\n").unwrap();
    assert_eq!(resolve_addresses(&records), Err(DecodeError::AddressOutOfRange { line_no: 1 }));
    let mut long = String::from(":FF000004");
    for _ in 0..255 {
        long.push_str("FF");
    }
    let records = decode_lines(&long).unwrap();
    assert_eq!(resolve_addresses(&records), Err(DecodeError::AddressOutOfRange { line_no: 1 }));
    // many bytes that denote a small number are taken
    let mut zeros = String::from(":FF000004");
    for _ in 0..254 {
        zeros.push_str("00");
    }
    zeros.push_str("02\n:0100030055");
    let records = decode_lines(&zeros).unwrap();
    assert_eq!(resolve_addresses(&records).unwrap().records[0].address, 0x0002_0003);
}

#[test]
fn resolve_rejects_a_data_record_beyond_32_bits() {
    let records = decode_lines(":040000020FFFFFFF\n:01000F0055\n:0100100066\n").unwrap();
    assert_eq!(resolve_addresses(&records), Err(DecodeError::AddressOutOfRange { line_no: 3 }));
}
