use picotool::cmd::CodecError;
use picotool::cmd::PicobootCmd;
use picotool::cmd::PicobootCmdId;
use picotool::cmd::PicobootRangeCmd;
use picotool::cmd::PicobootReboot2Cmd;
use picotool::cmd::PicobootRebootCmd;
use picotool::cmd::PicobootStatus;
use picotool::cmd::PicobootStatusCmd;
use picotool::session::PicobootConnection;
use picotool::TargetID;

#[test]
fn range_args_wire_image() {
    let args = PicobootRangeCmd::ser(0x10001000, 0x1000);
    let expected: [u8; 16] = [
        0x00, 0x10, 0x00, 0x10, 0x00, 0x10, 0x00, 0x00, 0, 0, 0, 0, 0, 0, 0, 0,
    ];
    assert_eq!(args, expected);
}

#[test]
fn range_args_round_trip() {
    let args = PicobootRangeCmd::ser(0xDEADBEEF, 0x12345678);
    let back = PicobootRangeCmd::deser(&args).unwrap();
    assert_eq!(back.addr, 0xDEADBEEF);
    assert_eq!(back.size, 0x12345678);
}

#[test]
fn range_args_nonzero_padding_rejected() {
    let mut args = PicobootRangeCmd::ser(1, 2);
    args[12] = 0x55;
    assert!(PicobootRangeCmd::deser(&args).is_none());
}

#[test]
fn reboot_args_round_trip() {
    let args = PicobootRebootCmd::ser(0, 0x20042000, 500);
    let back = PicobootRebootCmd::deser(&args).unwrap();
    assert_eq!(back.pc, 0);
    assert_eq!(back.sp, 0x20042000);
    assert_eq!(back.delay, 500);
}

#[test]
fn reboot2_args_round_trip() {
    let args = PicobootReboot2Cmd::ser(0, 500, 7, 9);
    let back = PicobootReboot2Cmd::deser(&args);
    assert_eq!(back.flags, 0);
    assert_eq!(back.delay, 500);
    assert_eq!(back.p0, 7);
    assert_eq!(back.p1, 9);
}

#[test]
fn cmd_frame_round_trip() {
    let args = PicobootRangeCmd::ser(0x10000000, 256);
    let cmd = PicobootCmd::new(PicobootCmdId::Write, 8, 256, args);
    let wire = cmd.ser();
    assert_eq!(wire.len(), 32);
    let back = PicobootCmd::deser(&wire).unwrap();
    assert_eq!(back.magic, 0x431FD10B);
    assert_eq!(back.token, 0);
    assert_eq!(back.cmd_id, 0x05);
    assert_eq!(back.cmd_size, 8);
    assert_eq!(back.transfer_len, 256);
    assert_eq!(back.args, args);
    assert_eq!(back.ser(), wire);
}

#[test]
fn cmd_frame_wrong_length_rejected() {
    let wire = vec![0u8; 31];
    assert!(matches!(PicobootCmd::deser(&wire), Err(CodecError::WrongLength)));
}

#[test]
fn cmd_frame_bad_magic_rejected() {
    let mut wire = PicobootCmd::new(PicobootCmdId::ExitXip, 0, 0, [0; 16]).ser();
    wire[0] ^= 0xFF;
    assert!(matches!(PicobootCmd::deser(&wire), Err(CodecError::BadMagic)));
}

#[test]
fn status_frame_round_trip() {
    // token 0x01020304, status 7 (Rebooting), cmd id 2, in-progress 1,
    // nonzero reserved bytes to show they survive the round trip
    let wire = vec![
        0x04, 0x03, 0x02, 0x01, 0x07, 0x00, 0x00, 0x00, 0x02, 0x01, 0xAA, 0xBB, 0xCC, 0xDD,
        0xEE, 0xFF,
    ];
    let frame = PicobootStatusCmd::deser(&wire).unwrap();
    assert_eq!(frame.token, 0x01020304);
    assert!(matches!(frame.status, PicobootStatus::Rebooting));
    assert_eq!(frame.cmd_id, 0x02);
    assert_eq!(frame.in_progress, 0x01);
    assert_eq!(frame.ser(), wire);
}

#[test]
fn status_frame_unknown_code_rejected() {
    let wire = vec![0, 0, 0, 0, 18, 0, 0, 0, 0, 0, 0, 0, 0, 0, 0, 0];
    assert!(matches!(PicobootStatusCmd::deser(&wire), Err(CodecError::UnknownStatus)));
}

#[test]
fn status_frame_wrong_length_rejected() {
    let wire = vec![0u8; 15];
    assert!(matches!(PicobootStatusCmd::deser(&wire), Err(CodecError::WrongLength)));
}

#[test]
fn status_codes_cover_enumeration() {
    for code in 0..=17u32 {
        let status = PicobootStatus::from_u32(code).unwrap();
        assert_eq!(status.to_u32(), code);
    }
    assert!(PicobootStatus::from_u32(18).is_none());
    assert!(PicobootStatus::from_u32(0xFFFF).is_none());
}

#[test]
fn cmd_ids_cover_table() {
    let table: [(PicobootCmdId, u8); 14] = [
        (PicobootCmdId::Unknown, 0x00),
        (PicobootCmdId::ExclusiveAccess, 0x01),
        (PicobootCmdId::Reboot, 0x02),
        (PicobootCmdId::FlashErase, 0x03),
        (PicobootCmdId::Read, 0x84),
        (PicobootCmdId::Write, 0x05),
        (PicobootCmdId::ExitXip, 0x06),
        (PicobootCmdId::EnterCmdXip, 0x07),
        (PicobootCmdId::Exec, 0x08),
        (PicobootCmdId::VectorizeFlash, 0x09),
        (PicobootCmdId::Reboot2, 0x0A),
        (PicobootCmdId::GetInfo, 0x8B),
        (PicobootCmdId::OtpRead, 0x8C),
        (PicobootCmdId::OtpWrite, 0x0D),
    ];
    for (id, byte) in table {
        assert_eq!(id.to_u8(), byte);
        assert_eq!(PicobootCmdId::from_u8(byte), Some(id));
    }
    assert!(PicobootCmdId::from_u8(0x0E).is_none());
}

#[test]
fn erase_frame_wire_image_with_token_seven() {
    // the session stamps tokens 1..=6 on six commands, so the seventh
    // frame carries token 7
    let mut conn = PicobootConnection::new(TargetID::Rp2040);
    for _ in 0..6 {
        let _ = conn.exit_xip();
    }
    let plan = conn.flash_erase(0x10001000, 0x1000);
    let expected: Vec<u8> = vec![
        0x0B, 0xD1, 0x1F, 0x43, 0x07, 0x00, 0x00, 0x00, 0x03, 0x08, 0x00, 0x00, 0x00, 0x00,
        0x00, 0x00, 0x00, 0x10, 0x00, 0x10, 0x00, 0x10, 0x00, 0x00, 0x00, 0x00, 0x00, 0x00,
        0x00, 0x00, 0x00, 0x00,
    ];
    assert_eq!(plan.frame, expected);
    assert!(plan.data_out.is_none());
    assert!(plan.data_in_len.is_none());
    assert!(!plan.ack_out);
}

#[test]
fn tokens_increase_by_one_from_one() {
    let mut conn = PicobootConnection::new(TargetID::Rp2350);
    for expected_token in 1u32..=5 {
        let plan = conn.exit_xip();
        let frame = PicobootCmd::deser(&plan.frame).unwrap();
        assert_eq!(frame.token, expected_token);
    }
}

#[test]
fn ack_direction_opposes_data_direction() {
    let mut conn = PicobootConnection::new(TargetID::Rp2040);
    // host-to-device commands ACK with a device-to-host byte
    let erase = conn.flash_erase(0x10000000, 0x1000);
    assert!(!erase.ack_out);
    let write = conn.flash_write(0x10000000, vec![0xAB; 256]);
    assert!(!write.ack_out);
    assert_eq!(write.data_out.as_deref(), Some(&[0xAB; 256][..]));
    assert!(write.data_in_len.is_none());
    // the device-to-host Read command ACKs with a host-to-device byte
    let read = conn.flash_read(0x10000000, 256);
    assert!(read.ack_out);
    assert_eq!(read.data_in_len, Some(256));
    assert!(read.data_out.is_none());
}

#[test]
fn exclusive_access_modes() {
    let mut conn = PicobootConnection::new(TargetID::Rp2040);
    let shared = conn.access_not_exclusive();
    assert_eq!(shared.frame[16], 0);
    let excl = conn.access_exclusive();
    assert_eq!(excl.frame[16], 1);
    let eject = conn.access_exclusive_eject();
    assert_eq!(eject.frame[16], 2);
    for plan in [&shared, &excl, &eject] {
        let frame = PicobootCmd::deser(&plan.frame).unwrap();
        assert_eq!(frame.cmd_id, 0x01);
        assert_eq!(frame.cmd_size, 1);
        assert_eq!(frame.transfer_len, 0);
    }
}

#[test]
fn device_selection_by_vendor_and_product() {
    assert!(matches!(
        picotool::picoboot_device_type(0x2E8A, 0x0003),
        Some(TargetID::Rp2040)
    ));
    assert!(matches!(
        picotool::picoboot_device_type(0x2E8A, 0x000F),
        Some(TargetID::Rp2350)
    ));
    assert!(picotool::picoboot_device_type(0x2E8A, 0x0004).is_none());
    assert!(picotool::picoboot_device_type(0x1234, 0x0003).is_none());
    assert!(picotool::is_picoboot_device(0x2E8A, 0x0003));
    assert!(!picotool::is_picoboot_device(0x0000, 0x0000));
}

#[test]
fn interface_discovery_triples() {
    assert!(picotool::is_picoboot_interface(0xFF, 0, 0));
    assert!(!picotool::is_picoboot_interface(0xFF, 0, 1));
    assert!(!picotool::is_picoboot_interface(0x08, 0, 0));
    assert!(picotool::is_reset_interface(0xFF, 0, 1));
    assert!(!picotool::is_reset_interface(0xFF, 0, 0));
    assert!(!picotool::is_reset_interface(0xFF, 1, 1));
}
