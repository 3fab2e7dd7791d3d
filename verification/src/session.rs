//! PICOBOOT session logic.
//!
//! A session owns the command token counter and turns each typed operation
//! into a `CmdPlan`: the exact, ordered USB transfers the host must perform
//! for that command. The unverified front end executes plans against the USB
//! stack; everything decided here — frame bytes, token stamping, data phase
//! direction, ACK direction — is verified.

use vstd::prelude::*;

use crate::TargetID;
use crate::cmd::PICOBOOT_MAGIC;
use crate::cmd::PicobootCmd;
use crate::cmd::PicobootCmdId;
use crate::cmd::PicobootRangeCmd;
use crate::cmd::PicobootReboot2Cmd;
use crate::cmd::PicobootRebootCmd;
use crate::cmd::spec_device_to_host;
use crate::cmd::device_to_host;
use crate::cmd::spec_range_args;
use crate::cmd::spec_reboot2_args;
use crate::cmd::spec_reboot_args;
use crate::cmd::spec_ser_cmd;
use crate::cmd::spec_zeros;
use crate::bytes::spec_le16;
use crate::bytes::spec_le32;

verus! {

/// The USB transfers of one PICOBOOT command, in the order the host must
/// perform them:
///
/// 1. bulk-out of `frame`, length-checked;
/// 2. status control-in, result discarded;
/// 3. if there is a data phase: bulk-out of `data_out` or bulk-in of
///    `data_in_len` bytes, length-checked, then a second status control-in;
/// 4. the trailing ACK: a single unchecked byte, bulk-out of `0x00` when
///    `ack_out`, else a 1-byte bulk-in.
///
/// At most one of `data_out` and `data_in_len` is set.
pub struct CmdPlan {
    /// The 32-byte command frame wire image.
    pub frame: Vec<u8>,
    /// Payload of a host-to-device data phase, if any.
    pub data_out: Option<Vec<u8>>,
    /// Length of a device-to-host data phase, if any.
    pub data_in_len: Option<usize>,
    /// Direction of the trailing single-byte ACK transfer: host-to-device
    /// when set, device-to-host otherwise.
    pub ack_out: bool,
}

/// One USB transfer, as the plans describe them.
pub enum UsbXfer {
    /// A bulk-out of the given bytes; `check` demands the full length.
    BulkOut { data: Seq<u8>, check: bool },
    /// A bulk-in of `len` bytes; `check` demands the full length.
    BulkIn { len: int, check: bool },
    /// A 16-byte vendor control-in reading the status frame.
    StatusIn,
}

/// True for an unchecked bulk transfer: only the trailing ACK is one.
pub open spec fn spec_xfer_unchecked(x: UsbXfer) -> bool {
    match x {
        UsbXfer::BulkOut { data, check } => !check,
        UsbXfer::BulkIn { len, check } => !check,
        UsbXfer::StatusIn => false,
    }
}

/// The ordered USB transfers a plan stands for.
pub open spec fn spec_plan_steps(p: CmdPlan) -> Seq<UsbXfer> {
    seq![UsbXfer::BulkOut { data: p.frame@, check: true }, UsbXfer::StatusIn] + (match p
        .data_in_len {
        Some(n) => seq![UsbXfer::BulkIn { len: n as int, check: true }, UsbXfer::StatusIn],
        None => match p.data_out {
            Some(d) => seq![UsbXfer::BulkOut { data: d@, check: true }, UsbXfer::StatusIn],
            None => Seq::empty(),
        },
    }) + seq![
        if p.ack_out {
            UsbXfer::BulkOut { data: seq![0u8], check: false }
        } else {
            UsbXfer::BulkIn { len: 1, check: false }
        },
    ]
}

/// The wire image of a command frame with the given fields, magic and
/// reserved word in place.
pub open spec fn spec_frame_bytes(
    tok: u32,
    cmd_id: u8,
    cmd_size: u8,
    transfer_len: u32,
    args: Seq<u8>,
) -> Seq<u8> {
    spec_le32(PICOBOOT_MAGIC) + spec_le32(tok) + seq![cmd_id, cmd_size] + spec_le16(0) + spec_le32(
        transfer_len,
    ) + args
}

/// What a well-formed plan for command `c` with host payload `buf` holds.
pub open spec fn spec_plan_for(p: CmdPlan, c: PicobootCmd, buf: Seq<u8>) -> bool {
    &&& p.frame@ == spec_ser_cmd(c)
    &&& p.ack_out == spec_device_to_host(c.cmd_id)
    &&& if c.transfer_len == 0 {
        p.data_out is None && p.data_in_len is None
    } else if spec_device_to_host(c.cmd_id) {
        p.data_out is None && p.data_in_len == Some(c.transfer_len as usize)
    } else {
        p.data_in_len is None && (p.data_out matches Some(d) && d@ == buf)
    }
}

/// A PICOBOOT session: the chip family it talks to and the token the next
/// command frame will carry. `issued` records, in order, the token of every
/// frame the session has stamped.
pub struct PicobootConnection {
    /// The chip family, fixed when the session opens.
    pub target_id: TargetID,
    /// Token of the next command; starts at 1 and grows by 1 per command.
    pub cmd_token: u32,
    /// Tokens of the issued frames, in order of issue.
    pub issued: Ghost<Seq<u32>>,
}

impl PicobootConnection {
    /// Session well-formedness: `issued` is exactly 1, 2, ... and the next
    /// token continues it.
    pub open spec fn wf(self) -> bool {
        &&& self.cmd_token >= 1
        &&& self.issued@.len() + 1 == self.cmd_token
        &&& forall|i: int| 0 <= i < self.issued@.len() ==> self.issued@[i] == i + 1
    }

    /// Opens a session for a claimed device of the given family; the first
    /// command will carry token 1.
    pub fn new(target_id: TargetID) -> (r: PicobootConnection)
        ensures
            r.wf(),
            r.target_id == target_id,
            r.cmd_token == 1,
            r.issued@ == Seq::<u32>::empty(),
    {
        PicobootConnection { target_id, cmd_token: 1, issued: Ghost(Seq::empty()) }
    }

    /// The chip family this session talks to.
    pub fn get_device_type(&self) -> (r: TargetID)
        ensures
            r == self.target_id,
    {
        self.target_id
    }

    /// Stamps `cmd` with the next token and lays out its transfer sequence.
    fn cmd(&mut self, cmd: PicobootCmd, buf: Vec<u8>) -> (p: CmdPlan)
        requires
            old(self).wf(),
            old(self).cmd_token < u32::MAX,
            cmd.magic == PICOBOOT_MAGIC,
            cmd.reserved == 0,
            !spec_device_to_host(cmd.cmd_id) && cmd.transfer_len > 0 ==> buf@.len()
                == cmd.transfer_len,
        ensures
            final(self).wf(),
            final(self).target_id == old(self).target_id,
            final(self).cmd_token == old(self).cmd_token + 1,
            final(self).issued@ == old(self).issued@.push(old(self).cmd_token),
            spec_plan_for(
                p,
                PicobootCmd { token: old(self).cmd_token, ..cmd },
                buf@,
            ),
            p.frame@ == spec_frame_bytes(
                old(self).cmd_token,
                cmd.cmd_id,
                cmd.cmd_size,
                cmd.transfer_len,
                cmd.args@,
            ),
    {
        let tok = self.cmd_token;
        let mut c = cmd;
        c.token = tok;
        self.cmd_token = tok + 1;
        proof {
            self.issued@ = self.issued@.push(tok);
        }
        let frame = c.ser();
        let d2h = device_to_host(c.cmd_id);
        let mut data_out: Option<Vec<u8>> = None;
        let mut data_in_len: Option<usize> = None;
        if c.transfer_len > 0 {
            if d2h {
                data_in_len = Some(c.transfer_len as usize);
            } else {
                data_out = Some(buf);
            }
        }
        let p = CmdPlan { frame, data_out, data_in_len, ack_out: d2h };
        assert(p.frame@ =~= spec_frame_bytes(tok, c.cmd_id, c.cmd_size, c.transfer_len, c.args@));
        p
    }

    /// Requests shared access to the device's flash.
    pub fn access_not_exclusive(&mut self) -> (p: CmdPlan)
        requires
            old(self).wf(),
            old(self).cmd_token < u32::MAX,
        ensures
            final(self).wf(),
            final(self).target_id == old(self).target_id,
            final(self).cmd_token == old(self).cmd_token + 1,
            final(self).issued@ == old(self).issued@.push(old(self).cmd_token),
            p.frame@ == spec_frame_bytes(
                old(self).cmd_token,
                0x01,
                1,
                0,
                seq![0u8] + spec_zeros(15),
            ),
            p.data_out is None && p.data_in_len is None && !p.ack_out,
    {
        self.set_exclusive_access(0)
    }

    /// Requests exclusive access to the device's flash.
    pub fn access_exclusive(&mut self) -> (p: CmdPlan)
        requires
            old(self).wf(),
            old(self).cmd_token < u32::MAX,
        ensures
            final(self).wf(),
            final(self).target_id == old(self).target_id,
            final(self).cmd_token == old(self).cmd_token + 1,
            final(self).issued@ == old(self).issued@.push(old(self).cmd_token),
            p.frame@ == spec_frame_bytes(
                old(self).cmd_token,
                0x01,
                1,
                0,
                seq![1u8] + spec_zeros(15),
            ),
            p.data_out is None && p.data_in_len is None && !p.ack_out,
    {
        self.set_exclusive_access(1)
    }

    /// Requests exclusive access and ejects any mass-storage view.
    pub fn access_exclusive_eject(&mut self) -> (p: CmdPlan)
        requires
            old(self).wf(),
            old(self).cmd_token < u32::MAX,
        ensures
            final(self).wf(),
            final(self).target_id == old(self).target_id,
            final(self).cmd_token == old(self).cmd_token + 1,
            final(self).issued@ == old(self).issued@.push(old(self).cmd_token),
            p.frame@ == spec_frame_bytes(
                old(self).cmd_token,
                0x01,
                1,
                0,
                seq![2u8] + spec_zeros(15),
            ),
            p.data_out is None && p.data_in_len is None && !p.ack_out,
    {
        self.set_exclusive_access(2)
    }

    /// The ExclusiveAccess command with the given mode byte.
    fn set_exclusive_access(&mut self, exclusive: u8) -> (p: CmdPlan)
        requires
            old(self).wf(),
            old(self).cmd_token < u32::MAX,
        ensures
            final(self).wf(),
            final(self).target_id == old(self).target_id,
            final(self).cmd_token == old(self).cmd_token + 1,
            final(self).issued@ == old(self).issued@.push(old(self).cmd_token),
            p.frame@ == spec_frame_bytes(
                old(self).cmd_token,
                0x01,
                1,
                0,
                seq![exclusive] + spec_zeros(15),
            ),
            p.data_out is None && p.data_in_len is None && !p.ack_out,
    {
        proof {
            lemma_cmd_id_bits();
        }
        let args: [u8; 16] = [exclusive, 0, 0, 0, 0, 0, 0, 0, 0, 0, 0, 0, 0, 0, 0, 0];
        assert(args@ =~= seq![exclusive] + spec_zeros(15));
        let c = PicobootCmd::new(PicobootCmdId::ExclusiveAccess, 1, 0, args);
        self.cmd(c, Vec::new())
    }

    /// The RP2040 Reboot command: program counter, stack pointer, delay.
    pub fn reboot(&mut self, pc: u32, sp: u32, delay: u32) -> (p: CmdPlan)
        requires
            old(self).wf(),
            old(self).cmd_token < u32::MAX,
        ensures
            final(self).wf(),
            final(self).target_id == old(self).target_id,
            final(self).cmd_token == old(self).cmd_token + 1,
            final(self).issued@ == old(self).issued@.push(old(self).cmd_token),
            p.frame@ == spec_frame_bytes(
                old(self).cmd_token,
                0x02,
                12,
                0,
                spec_reboot_args(pc, sp, delay),
            ),
            p.data_out is None && p.data_in_len is None && !p.ack_out,
    {
        proof {
            lemma_cmd_id_bits();
        }
        let args = PicobootRebootCmd::ser(pc, sp, delay);
        let c = PicobootCmd::new(PicobootCmdId::Reboot, 12, 0, args);
        self.cmd(c, Vec::new())
    }

    /// The RP2350 Reboot2 command for a normal boot after `delay`
    /// milliseconds: flags and both parameters zero.
    pub fn reboot2_normal(&mut self, delay: u32) -> (p: CmdPlan)
        requires
            old(self).wf(),
            old(self).cmd_token < u32::MAX,
        ensures
            final(self).wf(),
            final(self).target_id == old(self).target_id,
            final(self).cmd_token == old(self).cmd_token + 1,
            final(self).issued@ == old(self).issued@.push(old(self).cmd_token),
            p.frame@ == spec_frame_bytes(
                old(self).cmd_token,
                0x0A,
                0x10,
                0,
                spec_reboot2_args(0, delay, 0, 0),
            ),
            p.data_out is None && p.data_in_len is None && !p.ack_out,
    {
        proof {
            lemma_cmd_id_bits();
        }
        let args = PicobootReboot2Cmd::ser(0, delay, 0, 0);
        let c = PicobootCmd::new(PicobootCmdId::Reboot2, 0x10, 0, args);
        self.cmd(c, Vec::new())
    }

    /// The FlashErase command. The device erases the whole 4096-byte sector
    /// around `addr`; the address passed is the caller's, unmasked.
    pub fn flash_erase(&mut self, addr: u32, size: u32) -> (p: CmdPlan)
        requires
            old(self).wf(),
            old(self).cmd_token < u32::MAX,
        ensures
            final(self).wf(),
            final(self).target_id == old(self).target_id,
            final(self).cmd_token == old(self).cmd_token + 1,
            final(self).issued@ == old(self).issued@.push(old(self).cmd_token),
            p.frame@ == spec_frame_bytes(
                old(self).cmd_token,
                0x03,
                8,
                0,
                spec_range_args(addr, size),
            ),
            p.data_out is None && p.data_in_len is None && !p.ack_out,
    {
        proof {
            lemma_cmd_id_bits();
        }
        let args = PicobootRangeCmd::ser(addr, size);
        let c = PicobootCmd::new(PicobootCmdId::FlashErase, 8, 0, args);
        self.cmd(c, Vec::new())
    }

    /// The Write command: sends `buf` to flash at `addr` in the data phase.
    pub fn flash_write(&mut self, addr: u32, buf: Vec<u8>) -> (p: CmdPlan)
        requires
            old(self).wf(),
            old(self).cmd_token < u32::MAX,
            buf@.len() <= u32::MAX,
        ensures
            final(self).wf(),
            final(self).target_id == old(self).target_id,
            final(self).cmd_token == old(self).cmd_token + 1,
            final(self).issued@ == old(self).issued@.push(old(self).cmd_token),
            p.frame@ == spec_frame_bytes(
                old(self).cmd_token,
                0x05,
                8,
                buf@.len() as u32,
                spec_range_args(addr, buf@.len() as u32),
            ),
            buf@.len() > 0 ==> (p.data_out matches Some(d) && d@ == buf@),
            buf@.len() == 0 ==> p.data_out is None,
            p.data_in_len is None && !p.ack_out,
    {
        proof {
            lemma_cmd_id_bits();
        }
        let n: u32 = buf.len() as u32;
        let args = PicobootRangeCmd::ser(addr, n);
        let c = PicobootCmd::new(PicobootCmdId::Write, 8, n, args);
        self.cmd(c, buf)
    }

    /// The Read command: the device returns `size` bytes from `addr` in the
    /// data phase.
    pub fn flash_read(&mut self, addr: u32, size: u32) -> (p: CmdPlan)
        requires
            old(self).wf(),
            old(self).cmd_token < u32::MAX,
        ensures
            final(self).wf(),
            final(self).target_id == old(self).target_id,
            final(self).cmd_token == old(self).cmd_token + 1,
            final(self).issued@ == old(self).issued@.push(old(self).cmd_token),
            p.frame@ == spec_frame_bytes(
                old(self).cmd_token,
                0x84,
                8,
                size,
                spec_range_args(addr, size),
            ),
            size > 0 ==> p.data_in_len == Some(size as usize),
            size == 0 ==> p.data_in_len is None,
            p.data_out is None && p.ack_out,
    {
        proof {
            lemma_cmd_id_bits();
        }
        let args = PicobootRangeCmd::ser(addr, size);
        let c = PicobootCmd::new(PicobootCmdId::Read, 8, size, args);
        self.cmd(c, Vec::new())
    }

    /// The EnterCmdXip command: returns the flash to execute-in-place mode.
    pub fn enter_xip(&mut self) -> (p: CmdPlan)
        requires
            old(self).wf(),
            old(self).cmd_token < u32::MAX,
        ensures
            final(self).wf(),
            final(self).target_id == old(self).target_id,
            final(self).cmd_token == old(self).cmd_token + 1,
            final(self).issued@ == old(self).issued@.push(old(self).cmd_token),
            p.frame@ == spec_frame_bytes(old(self).cmd_token, 0x07, 0, 0, spec_zeros(16)),
            p.data_out is None && p.data_in_len is None && !p.ack_out,
    {
        proof {
            lemma_cmd_id_bits();
        }
        let args: [u8; 16] = [0, 0, 0, 0, 0, 0, 0, 0, 0, 0, 0, 0, 0, 0, 0, 0];
        assert(args@ =~= spec_zeros(16));
        let c = PicobootCmd::new(PicobootCmdId::EnterCmdXip, 0, 0, args);
        self.cmd(c, Vec::new())
    }

    /// The ExitXip command: takes the flash out of execute-in-place mode,
    /// required before raw flash programming.
    pub fn exit_xip(&mut self) -> (p: CmdPlan)
        requires
            old(self).wf(),
            old(self).cmd_token < u32::MAX,
        ensures
            final(self).wf(),
            final(self).target_id == old(self).target_id,
            final(self).cmd_token == old(self).cmd_token + 1,
            final(self).issued@ == old(self).issued@.push(old(self).cmd_token),
            p.frame@ == spec_frame_bytes(old(self).cmd_token, 0x06, 0, 0, spec_zeros(16)),
            p.data_out is None && p.data_in_len is None && !p.ack_out,
    {
        proof {
            lemma_cmd_id_bits();
        }
        let args: [u8; 16] = [0, 0, 0, 0, 0, 0, 0, 0, 0, 0, 0, 0, 0, 0, 0, 0];
        assert(args@ =~= spec_zeros(16));
        let c = PicobootCmd::new(PicobootCmdId::ExitXip, 0, 0, args);
        self.cmd(c, Vec::new())
    }
}

/// The data-direction bit of each command id this library issues.
proof fn lemma_cmd_id_bits()
    ensures
        !spec_device_to_host(0x01),
        !spec_device_to_host(0x02),
        !spec_device_to_host(0x03),
        !spec_device_to_host(0x05),
        !spec_device_to_host(0x06),
        !spec_device_to_host(0x07),
        !spec_device_to_host(0x0A),
        spec_device_to_host(0x84),
{
    assert((0x01u8 & 0x80 == 0) && (0x02u8 & 0x80 == 0) && (0x03u8 & 0x80 == 0) && (0x05u8 & 0x80
        == 0) && (0x06u8 & 0x80 == 0) && (0x07u8 & 0x80 == 0) && (0x0Au8 & 0x80 == 0) && (0x84u8
        & 0x80 != 0)) by (bit_vector);
}

/// Token monotonicity: in one session the tokens stamped on successive
/// command frames are 1, 2, 3, ... — they start at 1 and each frame's token
/// is one more than the frame before it.
pub proof fn lemma_token_monotonic(s: PicobootConnection)
    requires
        s.wf(),
    ensures
        s.issued@.len() > 0 ==> s.issued@[0] == 1,
        forall|i: int|
            0 <= i < s.issued@.len() - 1 ==> s.issued@[i + 1] == #[trigger] s.issued@[i] + 1,
{
}

/// ACK parity: the transfer sequence of every command plan ends with
/// exactly one single-byte unchecked transfer — host-to-device exactly when
/// the plan's `ack_out` is set, which every operation's contract ties to
/// the command id's direction bit, so the ACK always opposes the command's
/// data direction.
pub proof fn lemma_ack_parity(p: CmdPlan)
    ensures
        spec_plan_steps(p).len() > 0,
        spec_plan_steps(p).last() == (if p.ack_out {
            UsbXfer::BulkOut { data: seq![0u8], check: false }
        } else {
            UsbXfer::BulkIn { len: 1, check: false }
        }),
        forall|i: int|
            0 <= i < spec_plan_steps(p).len() - 1 ==> !spec_xfer_unchecked(spec_plan_steps(p)[i]),
{
    let steps = spec_plan_steps(p);
    assert forall|i: int| 0 <= i < steps.len() - 1 implies !spec_xfer_unchecked(steps[i]) by {
        assert(steps.len() == 3 || steps.len() == 5);
    }
}

} // verus!
