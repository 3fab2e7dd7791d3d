use picotool::cmd::PicobootCmd;
use picotool::cmd::PicobootRangeCmd;
use picotool::cmd::PicobootReboot2Cmd;
use picotool::cmd::PicobootRebootCmd;
use picotool::program::FlashError;
use picotool::program::FlashProgrammer;
use picotool::program::HostAction;
use picotool::program::Stage;
use picotool::uf2::uf2_pages;
use picotool::uf2::Uf2Error;
use picotool::TargetID;

fn put32(buf: &mut [u8], off: usize, x: u32) {
    buf[off..off + 4].copy_from_slice(&x.to_le_bytes());
}

fn uf2_block(addr: u32, data: &[u8], block_no: u32, num_blocks: u32) -> Vec<u8> {
    assert!(data.len() <= 476);
    let mut b = vec![0u8; 512];
    put32(&mut b, 0, 0x0A324655);
    put32(&mut b, 4, 0x9E5D5157);
    put32(&mut b, 8, 0x00002000); // family-id-present flag
    put32(&mut b, 12, addr);
    put32(&mut b, 16, data.len() as u32);
    put32(&mut b, 20, block_no);
    put32(&mut b, 24, num_blocks);
    put32(&mut b, 28, 0xE48BFF56); // RP2040 family id
    b[32..32 + data.len()].copy_from_slice(data);
    put32(&mut b, 508, 0x0AB16F30);
    b
}

fn tiny_image() -> Vec<u8> {
    (0..300).map(|i| (i * 7 % 251) as u8).collect()
}

fn tiny_uf2() -> Vec<u8> {
    let image = tiny_image();
    let mut uf2 = uf2_block(0x10000000, &image[..256], 0, 2);
    uf2.extend(uf2_block(0x10000100, &image[256..], 1, 2));
    uf2
}

#[test]
fn tiny_uf2_decodes_to_two_padded_pages() {
    let pages = uf2_pages(tiny_uf2()).unwrap();
    let image = tiny_image();
    assert_eq!(pages.len(), 2);
    assert_eq!(pages[0].len(), 256);
    assert_eq!(pages[1].len(), 256);
    assert_eq!(&pages[0][..], &image[..256]);
    assert_eq!(&pages[1][..44], &image[256..]);
    assert!(pages[1][44..].iter().all(|&b| b == 0));
}

#[test]
fn empty_container_gives_no_pages() {
    let pages = uf2_pages(Vec::new()).unwrap();
    assert!(pages.is_empty());
}

#[test]
fn backward_block_address_is_rejected() {
    let mut uf2 = uf2_block(0x10000100, &[1u8; 256], 0, 2);
    uf2.extend(uf2_block(0x10000000, &[2u8; 44], 1, 2));
    assert_eq!(uf2_pages(uf2), Err(Uf2Error::MisorderedBlocks));
}

#[test]
fn oversize_block_payload_is_rejected() {
    let mut block = uf2_block(0x10000000, &[0u8; 16], 0, 1);
    put32(&mut block, 16, 500); // payload length past a block's capacity
    match uf2_pages(block) {
        Err(Uf2Error::InvalidDataSize(i)) => assert_eq!(i, 0),
        other => panic!("expected InvalidDataSize, got {:?}", other),
    }
}

#[test]
fn non_uf2_blocks_are_skipped() {
    let mut junk = vec![0u8; 512];
    junk[0] = 0x42;
    let mut uf2 = junk;
    uf2.extend(uf2_block(0x10000000, &[9u8; 64], 0, 1));
    let pages = uf2_pages(uf2).unwrap();
    assert_eq!(pages.len(), 1);
    assert_eq!(&pages[0][..64], &[9u8; 64][..]);
    assert!(pages[0][64..].iter().all(|&b| b == 0));
}

#[test]
fn address_gap_is_zero_filled() {
    let mut uf2 = uf2_block(0x10000000, &[3u8; 256], 0, 2);
    uf2.extend(uf2_block(0x10000108, &[4u8; 44], 1, 2)); // 8-byte hole
    let pages = uf2_pages(uf2).unwrap();
    assert_eq!(pages.len(), 2);
    assert_eq!(&pages[0][..], &[3u8; 256][..]);
    assert!(pages[1][..8].iter().all(|&b| b == 0));
    assert_eq!(&pages[1][8..52], &[4u8; 44][..]);
    assert!(pages[1][52..].iter().all(|&b| b == 0));
}

#[test]
fn try_new_rejects_short_page() {
    let pages = vec![vec![0u8; 256], vec![0u8; 255]];
    assert!(FlashProgrammer::try_new(pages, TargetID::Rp2040).is_none());
}

/// Drives a job against a faithful mock device and returns
/// (erase addrs, write addrs, read count, reboot frames).
fn run_job(
    pages: Vec<Vec<u8>>,
    target: TargetID,
    flip_bit_on_read: Option<usize>,
) -> (Vec<(u32, u32)>, Vec<u32>, usize, Vec<PicobootCmd>, FlashProgrammer) {
    let mut fp = FlashProgrammer::try_new(pages.clone(), target).unwrap();
    let mut erases: Vec<(u32, u32)> = vec![];
    let mut writes: Vec<u32> = vec![];
    let mut reads: usize = 0;
    let mut reboots: Vec<PicobootCmd> = vec![];
    let mut resets: usize = 0;
    loop {
        let action = match fp.next_action() {
            None => break,
            Some(a) => a,
        };
        let plan = match action {
            HostAction::ResetInterface => {
                resets += 1;
                continue;
            }
            HostAction::Cmd(plan) => plan,
        };
        let frame = PicobootCmd::deser(&plan.frame).unwrap();
        match frame.cmd_id {
            0x01 | 0x06 => {}
            0x03 => {
                let range = PicobootRangeCmd::deser(&frame.args).unwrap();
                erases.push((range.addr, range.size));
            }
            0x05 => {
                let range = PicobootRangeCmd::deser(&frame.args).unwrap();
                let data = plan.data_out.as_ref().unwrap();
                assert_eq!(data.len(), 256);
                assert_eq!(range.size, 256);
                assert_eq!(&data[..], &pages[writes.len()][..]);
                writes.push(range.addr);
            }
            0x84 => {
                let range = PicobootRangeCmd::deser(&frame.args).unwrap();
                assert_eq!(range.size, 256);
                assert_eq!(plan.data_in_len, Some(256));
                assert!(plan.ack_out);
                let mut data = pages[reads].clone();
                if flip_bit_on_read == Some(reads) {
                    data[17] ^= 0x04;
                }
                reads += 1;
                let outcome = fp.provide_read(&data);
                if flip_bit_on_read == Some(reads - 1) {
                    assert_eq!(outcome, Err(FlashError::VerifyFailed));
                } else {
                    assert!(outcome.is_ok());
                }
            }
            0x02 | 0x0A => reboots.push(frame),
            other => panic!("unexpected command id {:#x}", other),
        }
    }
    assert_eq!(resets, 1);
    (erases, writes, reads, reboots, fp)
}

#[test]
fn tiny_image_on_rp2040() {
    let pages = uf2_pages(tiny_uf2()).unwrap();
    let (erases, writes, reads, reboots, fp) = run_job(pages, TargetID::Rp2040, None);
    assert_eq!(erases, vec![(0x10000000, 4096)]);
    assert_eq!(writes, vec![0x10000000, 0x10000100]);
    assert_eq!(reads, 2);
    assert_eq!(reboots.len(), 1);
    assert_eq!(reboots[0].cmd_id, 0x02);
    let args = PicobootRebootCmd::deser(&reboots[0].args).unwrap();
    assert_eq!(args.pc, 0);
    assert_eq!(args.sp, 0x20042000);
    assert_eq!(args.delay, 500);
    assert_eq!(fp.stage, Stage::Done);
}

#[test]
fn sector_boundary_image_on_rp2350() {
    let pages: Vec<Vec<u8>> = (0..32).map(|p| vec![p as u8; 256]).collect();
    let (erases, writes, reads, reboots, fp) = run_job(pages, TargetID::Rp2350, None);
    assert_eq!(erases, vec![(0x10000000, 4096), (0x10001000, 4096)]);
    assert_eq!(writes.len(), 32);
    for (i, addr) in writes.iter().enumerate() {
        assert_eq!(*addr, 0x10000000 + 256 * i as u32);
    }
    assert_eq!(reads, 32);
    assert_eq!(reboots.len(), 1);
    assert_eq!(reboots[0].cmd_id, 0x0A);
    let args = PicobootReboot2Cmd::deser(&reboots[0].args);
    assert_eq!(args.flags, 0);
    assert_eq!(args.delay, 500);
    assert_eq!(args.p0, 0);
    assert_eq!(args.p1, 0);
    assert_eq!(fp.stage, Stage::Done);
}

#[test]
fn flipped_readback_bit_aborts_without_reboot() {
    let pages: Vec<Vec<u8>> = (0..3).map(|p| vec![p as u8 + 1; 256]).collect();
    let (erases, writes, reads, reboots, fp) = run_job(pages, TargetID::Rp2040, Some(1));
    assert_eq!(erases.len(), 1);
    assert_eq!(writes.len(), 2); // the job stops after the second page fails
    assert_eq!(reads, 2);
    assert!(reboots.is_empty());
    assert_eq!(fp.stage, Stage::Failed);
}

#[test]
fn empty_page_list_still_initializes_and_reboots() {
    let (erases, writes, reads, reboots, fp) = run_job(Vec::new(), TargetID::Rp2040, None);
    assert!(erases.is_empty());
    assert!(writes.is_empty());
    assert_eq!(reads, 0);
    assert_eq!(reboots.len(), 1);
    assert_eq!(fp.stage, Stage::Done);
}

#[test]
fn token_sequence_across_whole_job() {
    let pages: Vec<Vec<u8>> = vec![vec![0xEE; 256]];
    let mut fp = FlashProgrammer::try_new(pages.clone(), TargetID::Rp2040).unwrap();
    let mut expected_token: u32 = 1;
    loop {
        let action = match fp.next_action() {
            None => break,
            Some(a) => a,
        };
        let plan = match action {
            HostAction::ResetInterface => continue,
            HostAction::Cmd(plan) => plan,
        };
        let frame = PicobootCmd::deser(&plan.frame).unwrap();
        assert_eq!(frame.token, expected_token);
        expected_token += 1;
        if frame.cmd_id == 0x84 {
            fp.provide_read(&pages[0]).unwrap();
        }
    }
    // exclusive access, exit XIP, erase, write, read, reboot
    assert_eq!(expected_token, 7);
}
