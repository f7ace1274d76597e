use dygma_focus::devices::{defy_wired, defy_wired_bootloader, defy_wireless, raise_ansi};
use dygma_focus::error::{DecodeError, FlashError, IoError};
use dygma_focus::flasher::{
    image_script, num_to_hex, plan_script, FlashAction, FlashEvent, Flasher, PACKET_SIZE,
    WRITE_SIZE,
};
use dygma_focus::hardware::Device;
use dygma_focus::ihex::{decode_lines, resolve_addresses, DecodedHex, FlashPlan, RecordType};

fn device(hardware: dygma_focus::hardware::Hardware) -> Device {
    Device { hardware, serial_port: "/dev/ttyACM0".to_string() }
}

fn write(text: &str) -> FlashAction {
    FlashAction::Write(text.as_bytes().to_vec())
}

const IMAGE: &str = ":020000040800F2\n:0400000001020304F2\n:02000400AABB95\n:00000001FF\n";

#[test]
fn addresses_are_eight_hex_digits_in_lower_case() {
    let hex = |n: u32| {
        let mut out = Vec::new();
        num_to_hex(&mut out, n);
        String::from_utf8(out).unwrap()
    };
    assert_eq!(hex(0), "00000000");
    assert_eq!(hex(0x0800_0000), "08000000");
    assert_eq!(hex(0xDEAD_BEEF), "deadbeef");
    assert_eq!(hex(u32::MAX), "ffffffff");
    assert_eq!(hex(0x1234_5678), "12345678");
    assert_eq!(hex(0x9abc_def0), "9abcdef0");
    assert_eq!(hex(255), "000000ff");
    let mut out = b"E".to_vec();
    num_to_hex(&mut out, 16);
    assert_eq!(out, b"E00000010".to_vec());
}

#[test]
fn a_session_is_for_a_defy_that_does_not_run_its_bootloader() {
    assert!(Flasher::new(&device(defy_wired())).is_ok());
    assert!(Flasher::new(&device(defy_wireless())).is_ok());
    assert_eq!(Flasher::new(&device(raise_ansi())).err(), Some(FlashError::UnsupportedDevice));
    assert_eq!(
        Flasher::new(&device(defy_wired_bootloader())).err(),
        Some(FlashError::BootloaderMode)
    );
}

#[test]
fn buffers_are_written_in_pieces() {
    assert_eq!(Flasher::write(&[]), Vec::<FlashAction>::new());
    assert_eq!(Flasher::write(&[7]), vec![FlashAction::Write(vec![7])]);
    assert_eq!(Flasher::write(&[1u8; 200]), vec![FlashAction::Write(vec![1u8; 200])]);
    assert_eq!(
        Flasher::write(&[1u8; 201]),
        vec![FlashAction::Write(vec![1u8; 200]), FlashAction::Write(vec![1u8])]
    );
    let buffer: Vec<u8> = (0..450u32).map(|i| (i % 251) as u8).collect();
    let pieces = Flasher::write(&buffer);
    assert_eq!(pieces.len(), 3);
    assert_eq!(pieces[0], FlashAction::Write(buffer[..200].to_vec()));
    assert_eq!(pieces[1], FlashAction::Write(buffer[200..400].to_vec()));
    assert_eq!(pieces[2], FlashAction::Write(buffer[400..].to_vec()));
    assert_eq!(WRITE_SIZE, 200);
}

#[test]
fn one_record_is_announced_written_and_committed() {
    let record = DecodedHex {
        str: String::new(),
        len: 4,
        address: 0x10,
        record_type: RecordType::DAT,
        data: vec![1, 2, 3, 4],
    };
    assert_eq!(
        Flasher::local_write(0x0800_0010, &record),
        vec![
            write("U00000004#"),
            FlashAction::Write(vec![1, 2, 3, 4]),
            write("W08000010,00000004#"),
            FlashAction::AwaitAck,
        ]
    );
}

#[test]
fn script_of_a_small_image() {
    assert_eq!(
        image_script(IMAGE),
        vec![
            write("E08000000#"),
            FlashAction::AwaitAck,
            write("U00000004#"),
            FlashAction::Write(vec![1, 2, 3, 4]),
            write("W08000000,00000004#"),
            FlashAction::AwaitAck,
            write("U00000002#"),
            FlashAction::Write(vec![0xAA, 0xBB]),
            write("W08000004,00000002#"),
            FlashAction::AwaitAck,
            write("S#"),
            FlashAction::AwaitAck,
            FlashAction::Done,
        ]
    );
}

#[test]
fn script_of_a_plan_is_that_of_its_image() {
    let records = decode_lines(IMAGE).unwrap();
    let plan = resolve_addresses(&records).unwrap();
    assert_eq!(plan_script(&plan), image_script(IMAGE));
}

#[test]
fn script_of_an_image_that_is_rejected() {
    assert_eq!(
        image_script(":00000001FF\n:01\n"),
        vec![FlashAction::Failed(FlashError::Decode(DecodeError::MalformedLine { line_no: 2 }))]
    );
    assert_eq!(image_script(""), vec![FlashAction::Failed(FlashError::EmptyImage)]);
    assert_eq!(
        image_script(":020000040800F2\n:00000001FF\n"),
        vec![FlashAction::Failed(FlashError::EmptyImage)]
    );
}

#[test]
fn script_of_an_image_whose_addresses_have_no_place() {
    assert_eq!(
        image_script(":0100000055\n:03000004010000\n:0100000066\n"),
        vec![FlashAction::Failed(FlashError::Decode(DecodeError::AddressOutOfRange {
            line_no: 2
        }))]
    );
    assert_eq!(
        image_script(":00000002\n"),
        vec![FlashAction::Failed(FlashError::Decode(DecodeError::AddressOutOfRange {
            line_no: 1
        }))]
    );
    // a directive of one byte is used like any other
    assert_eq!(image_script(":0100000401\n:0100020055\n")[0], write("E00010002#"));
}

#[test]
fn an_empty_record_is_announced_and_committed_without_payload() {
    assert_eq!(
        image_script(":00001000F0\n:0100110055\n"),
        vec![
            write("E00000010#"),
            FlashAction::AwaitAck,
            write("U00000000#"),
            write("W00000010,00000000#"),
            FlashAction::AwaitAck,
            write("U00000001#"),
            FlashAction::Write(vec![0x55]),
            write("W00000011,00000001#"),
            FlashAction::AwaitAck,
            write("S#"),
            FlashAction::AwaitAck,
            FlashAction::Done,
        ]
    );
    // an image of empty records only has no bytes to transfer
    assert_eq!(
        image_script(":00001000F0\n"),
        vec![
            write("E00000010#"),
            FlashAction::AwaitAck,
            write("S#"),
            FlashAction::AwaitAck,
            FlashAction::Done,
        ]
    );
}

fn long_record(address: u32) -> DecodedHex {
    DecodedHex {
        str: String::new(),
        len: 255,
        address,
        record_type: RecordType::DAT,
        data: (0..255u32).map(|i| i as u8).collect(),
    }
}

#[test]
fn a_long_payload_takes_two_writes() {
    let actions = Flasher::local_write(0x100, &long_record(0x100));
    assert_eq!(actions.len(), 5);
    assert_eq!(actions[0], write("U000000ff#"));
    assert_eq!(actions[1], FlashAction::Write((0..200u32).map(|i| i as u8).collect()));
    assert_eq!(actions[2], FlashAction::Write((200..255u32).map(|i| i as u8).collect()));
    assert_eq!(actions[3], write("W00000100,000000ff#"));
    assert_eq!(actions[4], FlashAction::AwaitAck);
}

#[test]
fn records_beyond_one_packet_are_all_transferred() {
    let records: Vec<DecodedHex> = (0..20u32).map(|i| long_record(i * 255)).collect();
    let plan = FlashPlan { records, total: 20 * 255 };
    assert!(plan.total > PACKET_SIZE);
    let script = plan_script(&plan);
    assert_eq!(script.len(), 2 + 20 * 5 + 3);
    let commits: Vec<&FlashAction> = script
        .iter()
        .filter(|a| matches!(a, FlashAction::Write(b) if b.first() == Some(&b'W')))
        .collect();
    assert_eq!(commits.len(), 20);
    assert_eq!(*commits[16], write("W00000ff0,000000ff#"));
    assert_eq!(*commits[19], write("W000012ed,000000ff#"));
    assert_eq!(script[script.len() - 3], write("S#"));
    assert_eq!(script[script.len() - 1], FlashAction::Done);
}

fn expect_write(action: FlashAction, text: &str) {
    assert_eq!(action, write(text));
}

#[test]
fn a_session_walks_its_script() {
    let mut flasher = Flasher::new(&device(defy_wired())).unwrap();
    expect_write(flasher.flash(FlashEvent::Begin, IMAGE), "E08000000#");
    assert_eq!(flasher.flash(FlashEvent::Written, ""), FlashAction::AwaitAck);
    expect_write(flasher.flash(FlashEvent::Acknowledged, ""), "U00000004#");
    assert_eq!(flasher.flash(FlashEvent::Written, ""), FlashAction::Write(vec![1, 2, 3, 4]));
    expect_write(flasher.flash(FlashEvent::Written, ""), "W08000000,00000004#");
    assert_eq!(flasher.flash(FlashEvent::Written, ""), FlashAction::AwaitAck);
    expect_write(flasher.flash(FlashEvent::Acknowledged, ""), "U00000002#");
    assert_eq!(flasher.flash(FlashEvent::Written, ""), FlashAction::Write(vec![0xAA, 0xBB]));
    expect_write(flasher.flash(FlashEvent::Written, ""), "W08000004,00000002#");
    assert_eq!(flasher.flash(FlashEvent::Written, ""), FlashAction::AwaitAck);
    expect_write(flasher.flash(FlashEvent::Acknowledged, ""), "S#");
    assert_eq!(flasher.flash(FlashEvent::Written, ""), FlashAction::AwaitAck);
    assert_eq!(flasher.flash(FlashEvent::Acknowledged, ""), FlashAction::Done);
    // nothing moves after the end
    assert_eq!(flasher.flash(FlashEvent::Acknowledged, ""), FlashAction::Done);
    assert_eq!(flasher.flash(FlashEvent::Written, ""), FlashAction::Done);
    assert_eq!(flasher.flash(FlashEvent::Failed(IoError::Read), ""), FlashAction::Done);
    // a new session starts from the erase
    expect_write(flasher.flash(FlashEvent::Begin, IMAGE), "E08000000#");
}

#[test]
fn a_session_that_has_not_begun_has_no_image() {
    let mut flasher = Flasher::new(&device(defy_wired())).unwrap();
    assert_eq!(
        flasher.flash(FlashEvent::Written, IMAGE),
        FlashAction::Failed(FlashError::EmptyImage)
    );
}

#[test]
fn a_session_fails_when_the_image_is_rejected() {
    let mut flasher = Flasher::new(&device(defy_wired())).unwrap();
    let failed =
        FlashAction::Failed(FlashError::Decode(DecodeError::MalformedLine { line_no: 1 }));
    assert_eq!(flasher.flash(FlashEvent::Begin, ":0300000001"), failed);
    assert_eq!(flasher.flash(FlashEvent::Written, ""), failed);
    assert_eq!(flasher.flash(FlashEvent::Begin, ""), FlashAction::Failed(FlashError::EmptyImage));
}

#[test]
fn a_session_fails_when_the_device_does_not_acknowledge() {
    let mut flasher = Flasher::new(&device(defy_wired())).unwrap();
    expect_write(flasher.flash(FlashEvent::Begin, IMAGE), "E08000000#");
    assert_eq!(flasher.flash(FlashEvent::Written, ""), FlashAction::AwaitAck);
    let failed = FlashAction::Failed(FlashError::DeviceNotAcknowledging);
    assert_eq!(flasher.flash(FlashEvent::Failed(IoError::Timeout), ""), failed);
    // the session cannot be taken up in the middle
    assert_eq!(flasher.flash(FlashEvent::Acknowledged, ""), failed);
    assert_eq!(flasher.flash(FlashEvent::Written, ""), failed);
}

#[test]
fn a_session_fails_when_the_port_fails() {
    let mut flasher = Flasher::new(&device(defy_wired())).unwrap();
    expect_write(flasher.flash(FlashEvent::Begin, IMAGE), "E08000000#");
    assert_eq!(
        flasher.flash(FlashEvent::Failed(IoError::Write), ""),
        FlashAction::Failed(FlashError::Io(IoError::Write))
    );
    expect_write(flasher.flash(FlashEvent::Begin, IMAGE), "E08000000#");
    // a timeout of a write is a fault of the port, not a missing acknowledgement
    assert_eq!(
        flasher.flash(FlashEvent::Failed(IoError::Timeout), ""),
        FlashAction::Failed(FlashError::Io(IoError::Timeout))
    );
    expect_write(flasher.flash(FlashEvent::Begin, IMAGE), "E08000000#");
    assert_eq!(flasher.flash(FlashEvent::Written, ""), FlashAction::AwaitAck);
    assert_eq!(
        flasher.flash(FlashEvent::Failed(IoError::Disconnected), ""),
        FlashAction::Failed(FlashError::Io(IoError::Disconnected))
    );
}

#[test]
fn a_session_fails_on_an_event_that_it_did_not_ask_for() {
    let mut flasher = Flasher::new(&device(defy_wired())).unwrap();
    expect_write(flasher.flash(FlashEvent::Begin, IMAGE), "E08000000#");
    assert_eq!(
        flasher.flash(FlashEvent::Acknowledged, ""),
        FlashAction::Failed(FlashError::DeviceNotAcknowledging)
    );
    expect_write(flasher.flash(FlashEvent::Begin, IMAGE), "E08000000#");
    assert_eq!(flasher.flash(FlashEvent::Written, ""), FlashAction::AwaitAck);
    assert_eq!(
        flasher.flash(FlashEvent::Written, ""),
        FlashAction::Failed(FlashError::DeviceNotAcknowledging)
    );
}

#[test]
fn decode_lines_of_the_flasher() {
    let records = Flasher::ihex_decode_lines(IMAGE).unwrap();
    assert_eq!(records.len(), 4);
    assert_eq!(records[1].data, vec![1, 2, 3, 4]);
    assert_eq!(
        Flasher::ihex_decode_lines(":00000001FF\nnonsense"),
        Err(DecodeError::MalformedLine { line_no: 2 })
    );
}

#[test]
fn a_transfer_stalls_where_bytes_remain_and_no_record_fits() {
    // a plan that counts more bytes than its records hold
    let plan = FlashPlan { records: vec![long_record(0)], total: 300 };
    let script = plan_script(&plan);
    assert_eq!(script.len(), 2 + 5 + 1);
    assert_eq!(script[0], write("E00000000#"));
    assert_eq!(script[6], FlashAction::AwaitAck);
    assert_eq!(script[7], FlashAction::Failed(FlashError::StalledTransfer));
}
