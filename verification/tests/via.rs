use stubby::via::{
    command_bytes, find_raw_hid, is_raw_hid, keyboard_value_of, keycode_of, layer_count_of,
    protocol_version_of, read_outcome, report, Command, HidInterface, XferError, ID_FIRMWARE_VERSION,
    PID, RAW_USAGE, RAW_USAGE_PAGE, REPORT_LEN, VID,
};

#[test]
fn request_bytes() {
    assert_eq!(command_bytes(&Command::ProtocolVersion), vec![0x01]);
    assert_eq!(command_bytes(&Command::KeyboardValue(ID_FIRMWARE_VERSION)), vec![0x02, 0x04]);
    assert_eq!(command_bytes(&Command::LayerCount), vec![0x11]);
    assert_eq!(command_bytes(&Command::ResetKeymap), vec![0x06]);
    assert_eq!(
        command_bytes(&Command::GetKeycode { layer: 1, row: 2, col: 3 }),
        vec![0x04, 1, 2, 3]
    );
    assert_eq!(
        command_bytes(&Command::SetKeycode { layer: 1, row: 4, col: 13, keycode: 0x7E28 }),
        vec![0x05, 1, 4, 13, 0x7E, 0x28]
    );
}

#[test]
fn report_frame() {
    let r = report(&[0x05, 1, 2, 3, 0xAB, 0xCD]);
    assert_eq!(r.len(), 1 + REPORT_LEN);
    assert_eq!(&r[..7], &[0, 0x05, 1, 2, 3, 0xAB, 0xCD]);
    assert!(r[7..].iter().all(|&b| b == 0));
    let empty = report(&[]);
    assert_eq!(empty, vec![0u8; 33]);
    let full = report(&[0xFF; 32]);
    assert_eq!(full[0], 0);
    assert!(full[1..].iter().all(|&b| b == 0xFF));
}

#[test]
fn replies() {
    let mut reply = [0u8; REPORT_LEN];
    reply[1] = 0x00;
    reply[2] = 0x0C;
    assert_eq!(protocol_version_of(&reply), 12);
    reply[1] = 4;
    assert_eq!(layer_count_of(&reply), 4);
    reply[2] = 0x01;
    reply[3] = 0x02;
    reply[4] = 0x03;
    reply[5] = 0x04;
    assert_eq!(keyboard_value_of(&reply), 0x0102_0304);
    reply[4] = 0x7E;
    reply[5] = 0x28;
    assert_eq!(keycode_of(&reply), 0x7E28);
}

#[test]
fn keycode_written_reads_back_from_echo() {
    for kc in [0u16, 1, 0x04, 0xFF, 0x100, 0x7E28, 0xFFFF] {
        let cmd = command_bytes(&Command::SetKeycode { layer: 0, row: 1, col: 2, keycode: kc });
        let mut reply = [0u8; REPORT_LEN];
        reply[..cmd.len()].copy_from_slice(&cmd);
        assert_eq!(keycode_of(&reply), kc);
    }
}

#[test]
fn read_outcomes() {
    assert!(matches!(read_outcome(0x04, Ok(0)), Err(XferError::Timeout(0x04))));
    assert!(read_outcome(0x04, Ok(32)).is_ok());
    match read_outcome(0x04, Err("broken pipe".to_string())) {
        Err(XferError::Read(e)) => assert_eq!(e, "broken pipe"),
        other => panic!("unexpected {other:?}"),
    }
}

#[test]
fn error_messages() {
    assert_eq!(XferError::Timeout(0x1a).message(), "timeout on cmd 0x1a");
    assert_eq!(XferError::Timeout(0x01).message(), "timeout on cmd 0x01");
    assert_eq!(XferError::Write("gone".to_string()).message(), "write: gone");
    assert_eq!(XferError::Read("io".to_string()).message(), "read: io");
}

#[test]
fn raw_hid_interface_is_found_first() {
    let other = HidInterface { vendor_id: VID, product_id: PID, usage_page: 0x0001, usage: 0x06 };
    let raw = HidInterface { vendor_id: VID, product_id: PID, usage_page: RAW_USAGE_PAGE, usage: RAW_USAGE };
    let foreign = HidInterface { vendor_id: 0x046d, product_id: PID, usage_page: RAW_USAGE_PAGE, usage: RAW_USAGE };
    assert!(is_raw_hid(&raw));
    assert!(!is_raw_hid(&other));
    assert!(!is_raw_hid(&foreign));
    assert_eq!(find_raw_hid(&vec![other, foreign, raw, raw]), Some(2));
    assert_eq!(find_raw_hid(&vec![other, foreign]), None);
    assert_eq!(find_raw_hid(&vec![]), None);
}
