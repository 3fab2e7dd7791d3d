//! PICOBOOT command and status frame codec.
//!
//! All frames are fixed-layout little-endian records: 32-byte command frames,
//! 16-byte status frames, 16-byte argument subframes. The serializers and
//! deserializers are pure, and their contracts pin the exact wire image.

use vstd::prelude::*;

use crate::bytes::lemma_le16_encode;
use crate::bytes::lemma_le32_encode;
use crate::bytes::push_le16;
use crate::bytes::push_le32;
use crate::bytes::read_u32_le;
use crate::bytes::spec_le16;
use crate::bytes::spec_le32;
use crate::bytes::spec_u16_from_le;
use crate::bytes::spec_u32_at;

verus! {

/// Magic number opening every command frame.
pub const PICOBOOT_MAGIC: u32 = 0x431FD10B;

/// Errors of the frame codec and of the session logic built on it.
#[derive(Debug, Clone, Copy, PartialEq, Eq, Structural)]
pub enum CodecError {
    /// A frame buffer did not have the exact required length.
    WrongLength,
    /// A command frame did not open with the PICOBOOT magic number.
    BadMagic,
    /// A status frame carried a status code outside the closed enumeration.
    UnknownStatus,
}

/// Command ids of the PICOBOOT protocol. A value whose high bit is set names
/// a device-to-host data transfer; the bit decides the ACK direction.
#[derive(Debug, Clone, Copy, PartialEq, Eq, Structural)]
pub enum PicobootCmdId {
    Unknown,
    ExclusiveAccess,
    Reboot,
    FlashErase,
    Read,
    Write,
    ExitXip,
    EnterCmdXip,
    Exec,
    VectorizeFlash,
    Reboot2,
    GetInfo,
    OtpRead,
    OtpWrite,
}

/// The wire byte of a command id.
pub open spec fn spec_cmd_id_u8(id: PicobootCmdId) -> u8 {
    match id {
        PicobootCmdId::Unknown => 0x00,
        PicobootCmdId::ExclusiveAccess => 0x01,
        PicobootCmdId::Reboot => 0x02,
        PicobootCmdId::FlashErase => 0x03,
        PicobootCmdId::Read => 0x84,
        PicobootCmdId::Write => 0x05,
        PicobootCmdId::ExitXip => 0x06,
        PicobootCmdId::EnterCmdXip => 0x07,
        PicobootCmdId::Exec => 0x08,
        PicobootCmdId::VectorizeFlash => 0x09,
        PicobootCmdId::Reboot2 => 0x0A,
        PicobootCmdId::GetInfo => 0x8B,
        PicobootCmdId::OtpRead => 0x8C,
        PicobootCmdId::OtpWrite => 0x0D,
    }
}

/// The command id a wire byte names, if any.
pub open spec fn spec_cmd_id_from_u8(x: u8) -> Option<PicobootCmdId> {
    if x == 0x00 {
        Some(PicobootCmdId::Unknown)
    } else if x == 0x01 {
        Some(PicobootCmdId::ExclusiveAccess)
    } else if x == 0x02 {
        Some(PicobootCmdId::Reboot)
    } else if x == 0x03 {
        Some(PicobootCmdId::FlashErase)
    } else if x == 0x84 {
        Some(PicobootCmdId::Read)
    } else if x == 0x05 {
        Some(PicobootCmdId::Write)
    } else if x == 0x06 {
        Some(PicobootCmdId::ExitXip)
    } else if x == 0x07 {
        Some(PicobootCmdId::EnterCmdXip)
    } else if x == 0x08 {
        Some(PicobootCmdId::Exec)
    } else if x == 0x09 {
        Some(PicobootCmdId::VectorizeFlash)
    } else if x == 0x0A {
        Some(PicobootCmdId::Reboot2)
    } else if x == 0x8B {
        Some(PicobootCmdId::GetInfo)
    } else if x == 0x8C {
        Some(PicobootCmdId::OtpRead)
    } else if x == 0x0D {
        Some(PicobootCmdId::OtpWrite)
    } else {
        None
    }
}

impl PicobootCmdId {
    /// The wire byte of this command id.
    pub fn to_u8(self) -> (r: u8)
        ensures
            r == spec_cmd_id_u8(self),
    {
        match self {
            PicobootCmdId::Unknown => 0x00,
            PicobootCmdId::ExclusiveAccess => 0x01,
            PicobootCmdId::Reboot => 0x02,
            PicobootCmdId::FlashErase => 0x03,
            PicobootCmdId::Read => 0x84,
            PicobootCmdId::Write => 0x05,
            PicobootCmdId::ExitXip => 0x06,
            PicobootCmdId::EnterCmdXip => 0x07,
            PicobootCmdId::Exec => 0x08,
            PicobootCmdId::VectorizeFlash => 0x09,
            PicobootCmdId::Reboot2 => 0x0A,
            PicobootCmdId::GetInfo => 0x8B,
            PicobootCmdId::OtpRead => 0x8C,
            PicobootCmdId::OtpWrite => 0x0D,
        }
    }

    /// The command id a wire byte names; `None` for an unrecognized byte.
    pub fn from_u8(x: u8) -> (r: Option<PicobootCmdId>)
        ensures
            r == spec_cmd_id_from_u8(x),
    {
        if x == 0x00 {
            Some(PicobootCmdId::Unknown)
        } else if x == 0x01 {
            Some(PicobootCmdId::ExclusiveAccess)
        } else if x == 0x02 {
            Some(PicobootCmdId::Reboot)
        } else if x == 0x03 {
            Some(PicobootCmdId::FlashErase)
        } else if x == 0x84 {
            Some(PicobootCmdId::Read)
        } else if x == 0x05 {
            Some(PicobootCmdId::Write)
        } else if x == 0x06 {
            Some(PicobootCmdId::ExitXip)
        } else if x == 0x07 {
            Some(PicobootCmdId::EnterCmdXip)
        } else if x == 0x08 {
            Some(PicobootCmdId::Exec)
        } else if x == 0x09 {
            Some(PicobootCmdId::VectorizeFlash)
        } else if x == 0x0A {
            Some(PicobootCmdId::Reboot2)
        } else if x == 0x8B {
            Some(PicobootCmdId::GetInfo)
        } else if x == 0x8C {
            Some(PicobootCmdId::OtpRead)
        } else if x == 0x0D {
            Some(PicobootCmdId::OtpWrite)
        } else {
            None
        }
    }
}

/// True when a command id byte names a device-to-host data transfer.
pub open spec fn spec_device_to_host(cmd_id: u8) -> bool {
    cmd_id & 0x80 != 0
}

/// Reports whether the high bit of a command id byte is set, which makes any
/// data phase device-to-host and flips the ACK direction.
pub fn device_to_host(cmd_id: u8) -> (r: bool)
    ensures
        r == spec_device_to_host(cmd_id),
{
    cmd_id & 0x80 != 0
}

/// Status codes of a status frame: a closed enumeration of 0 through 17.
#[derive(Debug, Clone, Copy, PartialEq, Eq, Structural)]
pub enum PicobootStatus {
    StatusOk,
    UnknownCmd,
    InvalidCmdLength,
    InvalidTransferLength,
    InvalidAddress,
    BadAlignment,
    InterleavedWrite,
    Rebooting,
    UnknownError,
    InvalidState,
    NotPermitted,
    InvalidArg,
    BufferTooSmall,
    PreconditionNotMet,
    ModifiedData,
    InvalidData,
    NotFound,
    UnsupportedModification,
}

/// The wire value of a status code.
pub open spec fn spec_status_u32(s: PicobootStatus) -> u32 {
    match s {
        PicobootStatus::StatusOk => 0,
        PicobootStatus::UnknownCmd => 1,
        PicobootStatus::InvalidCmdLength => 2,
        PicobootStatus::InvalidTransferLength => 3,
        PicobootStatus::InvalidAddress => 4,
        PicobootStatus::BadAlignment => 5,
        PicobootStatus::InterleavedWrite => 6,
        PicobootStatus::Rebooting => 7,
        PicobootStatus::UnknownError => 8,
        PicobootStatus::InvalidState => 9,
        PicobootStatus::NotPermitted => 10,
        PicobootStatus::InvalidArg => 11,
        PicobootStatus::BufferTooSmall => 12,
        PicobootStatus::PreconditionNotMet => 13,
        PicobootStatus::ModifiedData => 14,
        PicobootStatus::InvalidData => 15,
        PicobootStatus::NotFound => 16,
        PicobootStatus::UnsupportedModification => 17,
    }
}

/// The status code a wire value names; `None` outside 0 through 17.
pub open spec fn spec_status_from_u32(x: u32) -> Option<PicobootStatus> {
    if x == 0 {
        Some(PicobootStatus::StatusOk)
    } else if x == 1 {
        Some(PicobootStatus::UnknownCmd)
    } else if x == 2 {
        Some(PicobootStatus::InvalidCmdLength)
    } else if x == 3 {
        Some(PicobootStatus::InvalidTransferLength)
    } else if x == 4 {
        Some(PicobootStatus::InvalidAddress)
    } else if x == 5 {
        Some(PicobootStatus::BadAlignment)
    } else if x == 6 {
        Some(PicobootStatus::InterleavedWrite)
    } else if x == 7 {
        Some(PicobootStatus::Rebooting)
    } else if x == 8 {
        Some(PicobootStatus::UnknownError)
    } else if x == 9 {
        Some(PicobootStatus::InvalidState)
    } else if x == 10 {
        Some(PicobootStatus::NotPermitted)
    } else if x == 11 {
        Some(PicobootStatus::InvalidArg)
    } else if x == 12 {
        Some(PicobootStatus::BufferTooSmall)
    } else if x == 13 {
        Some(PicobootStatus::PreconditionNotMet)
    } else if x == 14 {
        Some(PicobootStatus::ModifiedData)
    } else if x == 15 {
        Some(PicobootStatus::InvalidData)
    } else if x == 16 {
        Some(PicobootStatus::NotFound)
    } else if x == 17 {
        Some(PicobootStatus::UnsupportedModification)
    } else {
        None
    }
}

impl PicobootStatus {
    /// The wire value of this status code.
    pub fn to_u32(self) -> (r: u32)
        ensures
            r == spec_status_u32(self),
    {
        match self {
            PicobootStatus::StatusOk => 0,
            PicobootStatus::UnknownCmd => 1,
            PicobootStatus::InvalidCmdLength => 2,
            PicobootStatus::InvalidTransferLength => 3,
            PicobootStatus::InvalidAddress => 4,
            PicobootStatus::BadAlignment => 5,
            PicobootStatus::InterleavedWrite => 6,
            PicobootStatus::Rebooting => 7,
            PicobootStatus::UnknownError => 8,
            PicobootStatus::InvalidState => 9,
            PicobootStatus::NotPermitted => 10,
            PicobootStatus::InvalidArg => 11,
            PicobootStatus::BufferTooSmall => 12,
            PicobootStatus::PreconditionNotMet => 13,
            PicobootStatus::ModifiedData => 14,
            PicobootStatus::InvalidData => 15,
            PicobootStatus::NotFound => 16,
            PicobootStatus::UnsupportedModification => 17,
        }
    }

    /// The status code a wire value names; `None` outside the enumeration.
    pub fn from_u32(x: u32) -> (r: Option<PicobootStatus>)
        ensures
            r == spec_status_from_u32(x),
    {
        if x == 0 {
            Some(PicobootStatus::StatusOk)
        } else if x == 1 {
            Some(PicobootStatus::UnknownCmd)
        } else if x == 2 {
            Some(PicobootStatus::InvalidCmdLength)
        } else if x == 3 {
            Some(PicobootStatus::InvalidTransferLength)
        } else if x == 4 {
            Some(PicobootStatus::InvalidAddress)
        } else if x == 5 {
            Some(PicobootStatus::BadAlignment)
        } else if x == 6 {
            Some(PicobootStatus::InterleavedWrite)
        } else if x == 7 {
            Some(PicobootStatus::Rebooting)
        } else if x == 8 {
            Some(PicobootStatus::UnknownError)
        } else if x == 9 {
            Some(PicobootStatus::InvalidState)
        } else if x == 10 {
            Some(PicobootStatus::NotPermitted)
        } else if x == 11 {
            Some(PicobootStatus::InvalidArg)
        } else if x == 12 {
            Some(PicobootStatus::BufferTooSmall)
        } else if x == 13 {
            Some(PicobootStatus::PreconditionNotMet)
        } else if x == 14 {
            Some(PicobootStatus::ModifiedData)
        } else if x == 15 {
            Some(PicobootStatus::InvalidData)
        } else if x == 16 {
            Some(PicobootStatus::NotFound)
        } else if x == 17 {
            Some(PicobootStatus::UnsupportedModification)
        } else {
            None
        }
    }
}

/// A sequence of `n` zero bytes.
pub open spec fn spec_zeros(n: nat) -> Seq<u8> {
    Seq::new(n, |i| 0u8)
}

/// The 16-byte Range argument subframe: address, size, 8 bytes of padding.
pub open spec fn spec_range_args(addr: u32, size: u32) -> Seq<u8> {
    spec_le32(addr) + spec_le32(size) + spec_zeros(8)
}

/// The 16-byte Reboot argument subframe of the RP2040.
pub open spec fn spec_reboot_args(pc: u32, sp: u32, delay: u32) -> Seq<u8> {
    spec_le32(pc) + spec_le32(sp) + spec_le32(delay) + spec_zeros(4)
}

/// The 16-byte Reboot2 argument subframe of the RP2350.
pub open spec fn spec_reboot2_args(flags: u32, delay: u32, p0: u32, p1: u32) -> Seq<u8> {
    spec_le32(flags) + spec_le32(delay) + spec_le32(p0) + spec_le32(p1)
}

/// The fields of a Range subframe, if `b` is one: 16 bytes with zero padding.
pub open spec fn spec_parse_range(b: Seq<u8>) -> Option<(u32, u32)> {
    if b.len() == 16 && b.subrange(8, 16) == spec_zeros(8) {
        Some((spec_u32_at(b, 0), spec_u32_at(b, 4)))
    } else {
        None
    }
}

/// The fields of a Reboot subframe, if `b` is one.
pub open spec fn spec_parse_reboot(b: Seq<u8>) -> Option<(u32, u32, u32)> {
    if b.len() == 16 && b.subrange(12, 16) == spec_zeros(4) {
        Some((spec_u32_at(b, 0), spec_u32_at(b, 4), spec_u32_at(b, 8)))
    } else {
        None
    }
}

/// The fields of a Reboot2 subframe, if `b` is one.
pub open spec fn spec_parse_reboot2(b: Seq<u8>) -> Option<(u32, u32, u32, u32)> {
    if b.len() == 16 {
        Some((spec_u32_at(b, 0), spec_u32_at(b, 4), spec_u32_at(b, 8), spec_u32_at(b, 12)))
    } else {
        None
    }
}

/// Range arguments for Read, Write and FlashErase commands.
#[derive(Debug, Clone, Copy, PartialEq, Eq, Structural)]
pub struct PicobootRangeCmd {
    pub addr: u32,
    pub size: u32,
}

impl PicobootRangeCmd {
    /// Packs address and size into the 16-byte Range subframe.
    pub fn ser(addr: u32, size: u32) -> (r: [u8; 16])
        ensures
            r@ == spec_range_args(addr, size),
    {
        let (a0, a1, a2, a3) = crate::bytes::le32_parts(addr);
        let (s0, s1, s2, s3) = crate::bytes::le32_parts(size);
        let r: [u8; 16] = [a0, a1, a2, a3, s0, s1, s2, s3, 0, 0, 0, 0, 0, 0, 0, 0];
        assert(r@ =~= spec_range_args(addr, size));
        r
    }

    /// Recovers address and size from a Range subframe; `None` unless the
    /// padding bytes are zero.
    pub fn deser(b: &[u8; 16]) -> (r: Option<PicobootRangeCmd>)
        ensures
            r is Some <==> spec_parse_range(b@) is Some,
            r matches Some(c) ==> spec_parse_range(b@) == Some((c.addr, c.size)),
    {
        let mut i: usize = 8;
        while i < 16
            invariant
                8 <= i <= 16,
                forall|j: int| 8 <= j < i ==> b@[j] == 0u8,
            decreases 16 - i,
        {
            if b[i] != 0 {
                assert(b@.subrange(8, 16)[i - 8] != 0);
                return None;
            }
            i += 1;
        }
        assert(b@.subrange(8, 16) =~= spec_zeros(8));
        let addr = (b[0] as u32) | ((b[1] as u32) << 8) | ((b[2] as u32) << 16)
            | ((b[3] as u32) << 24);
        let size = (b[4] as u32) | ((b[5] as u32) << 8) | ((b[6] as u32) << 16)
            | ((b[7] as u32) << 24);
        Some(PicobootRangeCmd { addr, size })
    }
}

/// Reboot arguments of the RP2040: program counter, stack pointer, delay.
#[derive(Debug, Clone, Copy, PartialEq, Eq, Structural)]
pub struct PicobootRebootCmd {
    pub pc: u32,
    pub sp: u32,
    pub delay: u32,
}

impl PicobootRebootCmd {
    /// Packs the RP2040 reboot arguments into the 16-byte Reboot subframe.
    pub fn ser(pc: u32, sp: u32, delay: u32) -> (r: [u8; 16])
        ensures
            r@ == spec_reboot_args(pc, sp, delay),
    {
        let (a0, a1, a2, a3) = crate::bytes::le32_parts(pc);
        let (s0, s1, s2, s3) = crate::bytes::le32_parts(sp);
        let (d0, d1, d2, d3) = crate::bytes::le32_parts(delay);
        let r: [u8; 16] = [a0, a1, a2, a3, s0, s1, s2, s3, d0, d1, d2, d3, 0, 0, 0, 0];
        assert(r@ =~= spec_reboot_args(pc, sp, delay));
        r
    }

    /// Recovers the RP2040 reboot arguments from a Reboot subframe; `None`
    /// unless the padding bytes are zero.
    pub fn deser(b: &[u8; 16]) -> (r: Option<PicobootRebootCmd>)
        ensures
            r is Some <==> spec_parse_reboot(b@) is Some,
            r matches Some(c) ==> spec_parse_reboot(b@) == Some((c.pc, c.sp, c.delay)),
    {
        if b[12] != 0 || b[13] != 0 || b[14] != 0 || b[15] != 0 {
            assert(spec_parse_reboot(b@) is None) by {
                if b@.subrange(12, 16) == spec_zeros(4) {
                    assert(b@.subrange(12, 16)[0] == 0 && b@.subrange(12, 16)[1] == 0
                        && b@.subrange(12, 16)[2] == 0 && b@.subrange(12, 16)[3] == 0);
                }
            }
            return None;
        }
        assert(b@.subrange(12, 16) =~= spec_zeros(4));
        let pc = (b[0] as u32) | ((b[1] as u32) << 8) | ((b[2] as u32) << 16)
            | ((b[3] as u32) << 24);
        let sp = (b[4] as u32) | ((b[5] as u32) << 8) | ((b[6] as u32) << 16)
            | ((b[7] as u32) << 24);
        let delay = (b[8] as u32) | ((b[9] as u32) << 8) | ((b[10] as u32) << 16)
            | ((b[11] as u32) << 24);
        Some(PicobootRebootCmd { pc, sp, delay })
    }
}

/// Reboot2 arguments of the RP2350: flags, delay, two parameters.
#[derive(Debug, Clone, Copy, PartialEq, Eq, Structural)]
pub struct PicobootReboot2Cmd {
    pub flags: u32,
    pub delay: u32,
    pub p0: u32,
    pub p1: u32,
}

impl PicobootReboot2Cmd {
    /// Packs the RP2350 reboot arguments into the 16-byte Reboot2 subframe.
    pub fn ser(flags: u32, delay: u32, p0: u32, p1: u32) -> (r: [u8; 16])
        ensures
            r@ == spec_reboot2_args(flags, delay, p0, p1),
    {
        let (f0, f1, f2, f3) = crate::bytes::le32_parts(flags);
        let (d0, d1, d2, d3) = crate::bytes::le32_parts(delay);
        let (x0, x1, x2, x3) = crate::bytes::le32_parts(p0);
        let (y0, y1, y2, y3) = crate::bytes::le32_parts(p1);
        let r: [u8; 16] = [f0, f1, f2, f3, d0, d1, d2, d3, x0, x1, x2, x3, y0, y1, y2, y3];
        assert(r@ =~= spec_reboot2_args(flags, delay, p0, p1));
        r
    }

    /// Recovers the RP2350 reboot arguments from a Reboot2 subframe.
    pub fn deser(b: &[u8; 16]) -> (r: PicobootReboot2Cmd)
        ensures
            spec_parse_reboot2(b@) == Some((r.flags, r.delay, r.p0, r.p1)),
    {
        let flags = (b[0] as u32) | ((b[1] as u32) << 8) | ((b[2] as u32) << 16)
            | ((b[3] as u32) << 24);
        let delay = (b[4] as u32) | ((b[5] as u32) << 8) | ((b[6] as u32) << 16)
            | ((b[7] as u32) << 24);
        let p0 = (b[8] as u32) | ((b[9] as u32) << 8) | ((b[10] as u32) << 16)
            | ((b[11] as u32) << 24);
        let p1 = (b[12] as u32) | ((b[13] as u32) << 8) | ((b[14] as u32) << 16)
            | ((b[15] as u32) << 24);
        PicobootReboot2Cmd { flags, delay, p0, p1 }
    }
}

/// Parsing a serialized Range subframe gives the fields back.
pub proof fn lemma_range_round_trip(addr: u32, size: u32)
    ensures
        spec_parse_range(spec_range_args(addr, size)) == Some((addr, size)),
{
    let b = spec_range_args(addr, size);
    assert(b.subrange(8, 16) =~= spec_zeros(8));
    crate::bytes::lemma_le32_decode(addr);
    crate::bytes::lemma_le32_decode(size);
    assert(b[0] == spec_le32(addr)[0] && b[1] == spec_le32(addr)[1] && b[2] == spec_le32(addr)[2]
        && b[3] == spec_le32(addr)[3]);
    assert(b[4] == spec_le32(size)[0] && b[5] == spec_le32(size)[1] && b[6] == spec_le32(size)[2]
        && b[7] == spec_le32(size)[3]);
}

/// Parsing a serialized Reboot subframe gives the fields back.
pub proof fn lemma_reboot_round_trip(pc: u32, sp: u32, delay: u32)
    ensures
        spec_parse_reboot(spec_reboot_args(pc, sp, delay)) == Some((pc, sp, delay)),
{
    let b = spec_reboot_args(pc, sp, delay);
    assert(b.subrange(12, 16) =~= spec_zeros(4));
    crate::bytes::lemma_le32_decode(pc);
    crate::bytes::lemma_le32_decode(sp);
    crate::bytes::lemma_le32_decode(delay);
    assert(b[0] == spec_le32(pc)[0] && b[1] == spec_le32(pc)[1] && b[2] == spec_le32(pc)[2]
        && b[3] == spec_le32(pc)[3]);
    assert(b[4] == spec_le32(sp)[0] && b[5] == spec_le32(sp)[1] && b[6] == spec_le32(sp)[2]
        && b[7] == spec_le32(sp)[3]);
    assert(b[8] == spec_le32(delay)[0] && b[9] == spec_le32(delay)[1]
        && b[10] == spec_le32(delay)[2] && b[11] == spec_le32(delay)[3]);
}

/// Parsing a serialized Reboot2 subframe gives the fields back.
pub proof fn lemma_reboot2_round_trip(flags: u32, delay: u32, p0: u32, p1: u32)
    ensures
        spec_parse_reboot2(spec_reboot2_args(flags, delay, p0, p1)) == Some(
            (flags, delay, p0, p1),
        ),
{
    let b = spec_reboot2_args(flags, delay, p0, p1);
    crate::bytes::lemma_le32_decode(flags);
    crate::bytes::lemma_le32_decode(delay);
    crate::bytes::lemma_le32_decode(p0);
    crate::bytes::lemma_le32_decode(p1);
    assert(b[0] == spec_le32(flags)[0] && b[1] == spec_le32(flags)[1]
        && b[2] == spec_le32(flags)[2] && b[3] == spec_le32(flags)[3]);
    assert(b[4] == spec_le32(delay)[0] && b[5] == spec_le32(delay)[1]
        && b[6] == spec_le32(delay)[2] && b[7] == spec_le32(delay)[3]);
    assert(b[8] == spec_le32(p0)[0] && b[9] == spec_le32(p0)[1] && b[10] == spec_le32(p0)[2]
        && b[11] == spec_le32(p0)[3]);
    assert(b[12] == spec_le32(p1)[0] && b[13] == spec_le32(p1)[1] && b[14] == spec_le32(p1)[2]
        && b[15] == spec_le32(p1)[3]);
}

/// A 32-byte command frame sent host-to-device to open every operation.
#[derive(Debug, Clone, Copy)]
pub struct PicobootCmd {
    pub magic: u32,
    pub token: u32,
    pub cmd_id: u8,
    pub cmd_size: u8,
    pub reserved: u16,
    pub transfer_len: u32,
    pub args: [u8; 16],
}

/// The 32-byte little-endian wire image of a command frame.
pub open spec fn spec_ser_cmd(c: PicobootCmd) -> Seq<u8> {
    spec_le32(c.magic) + spec_le32(c.token) + seq![c.cmd_id, c.cmd_size] + spec_le16(c.reserved)
        + spec_le32(c.transfer_len) + c.args@
}

impl PicobootCmd {
    /// A fresh command frame with the magic set and the token still unstamped.
    pub fn new(cmd_id: PicobootCmdId, cmd_size: u8, transfer_len: u32, args: [u8; 16]) -> (r:
        PicobootCmd)
        ensures
            r.magic == PICOBOOT_MAGIC,
            r.token == 0,
            r.cmd_id == spec_cmd_id_u8(cmd_id),
            r.cmd_size == cmd_size,
            r.reserved == 0,
            r.transfer_len == transfer_len,
            r.args == args,
    {
        let cmd_id = cmd_id.to_u8();
        PicobootCmd { magic: PICOBOOT_MAGIC, token: 0, cmd_id, cmd_size, reserved: 0, transfer_len, args }
    }

    /// Serializes the frame to its exact 32-byte wire image.
    pub fn ser(&self) -> (r: Vec<u8>)
        ensures
            r@ == spec_ser_cmd(*self),
            r@.len() == 32,
    {
        let mut out: Vec<u8> = Vec::new();
        push_le32(&mut out, self.magic);
        push_le32(&mut out, self.token);
        out.push(self.cmd_id);
        out.push(self.cmd_size);
        push_le16(&mut out, self.reserved);
        push_le32(&mut out, self.transfer_len);
        let ghost head = out@;
        let mut i: usize = 0;
        while i < 16
            invariant
                0 <= i <= 16,
                out@ == head + self.args@.subrange(0, i as int),
                head.len() == 16,
            decreases 16 - i,
        {
            out.push(self.args[i]);
            assert(out@ =~= head + self.args@.subrange(0, i + 1));
            i += 1;
        }
        assert(self.args@.subrange(0, 16) =~= self.args@);
        assert(out@ =~= spec_ser_cmd(*self));
        out
    }

    /// Parses a 32-byte command frame. Fails exactly on a wrong length or a
    /// missing magic number; on success the parsed frame re-serializes to the
    /// input bytes.
    pub fn deser(b: &Vec<u8>) -> (r: Result<PicobootCmd, CodecError>)
        ensures
            r is Ok <==> (b@.len() == 32 && spec_u32_at(b@, 0) == PICOBOOT_MAGIC),
            r matches Ok(c) ==> spec_ser_cmd(c) == b@,
            r matches Ok(c) ==> c.magic == PICOBOOT_MAGIC && c.token == spec_u32_at(b@, 4)
                && c.cmd_id == b@[8] && c.cmd_size == b@[9] && c.reserved == spec_u16_from_le(
                b@[10],
                b@[11],
            ) && c.transfer_len == spec_u32_at(b@, 12) && c.args@ == b@.subrange(16, 32),
            b@.len() != 32 ==> r == Err::<PicobootCmd, CodecError>(CodecError::WrongLength),
            b@.len() == 32 && spec_u32_at(b@, 0) != PICOBOOT_MAGIC ==> r == Err::<
                PicobootCmd,
                CodecError,
            >(CodecError::BadMagic),
    {
        if b.len() != 32 {
            return Err(CodecError::WrongLength);
        }
        let magic = read_u32_le(b, 0);
        if magic != PICOBOOT_MAGIC {
            return Err(CodecError::BadMagic);
        }
        let token = read_u32_le(b, 4);
        let cmd_id = b[8];
        let cmd_size = b[9];
        let reserved = (b[10] as u16) | ((b[11] as u16) << 8);
        let transfer_len = read_u32_le(b, 12);
        let args: [u8; 16] = [b[16], b[17], b[18], b[19], b[20], b[21], b[22], b[23], b[24], b[25],
            b[26], b[27], b[28], b[29], b[30], b[31]];
        let c = PicobootCmd { magic, token, cmd_id, cmd_size, reserved, transfer_len, args };
        proof {
            lemma_le32_encode(b@[0], b@[1], b@[2], b@[3]);
            lemma_le32_encode(b@[4], b@[5], b@[6], b@[7]);
            lemma_le16_encode(b@[10], b@[11]);
            lemma_le32_encode(b@[12], b@[13], b@[14], b@[15]);
            assert(c.args@ =~= b@.subrange(16, 32));
            assert(spec_ser_cmd(c) =~= b@);
        }
        Ok(c)
    }
}

/// A 16-byte status frame returned by the device's status control request.
#[derive(Debug, Clone, Copy)]
pub struct PicobootStatusCmd {
    pub token: u32,
    pub status: PicobootStatus,
    pub cmd_id: u8,
    pub in_progress: u8,
    pub reserved: [u8; 6],
}

/// The 16-byte little-endian wire image of a status frame.
pub open spec fn spec_ser_status(s: PicobootStatusCmd) -> Seq<u8> {
    spec_le32(s.token) + spec_le32(spec_status_u32(s.status)) + seq![s.cmd_id, s.in_progress]
        + s.reserved@
}

impl PicobootStatusCmd {
    /// Serializes the frame to its exact 16-byte wire image.
    pub fn ser(&self) -> (r: Vec<u8>)
        ensures
            r@ == spec_ser_status(*self),
            r@.len() == 16,
    {
        let mut out: Vec<u8> = Vec::new();
        push_le32(&mut out, self.token);
        push_le32(&mut out, self.status.to_u32());
        out.push(self.cmd_id);
        out.push(self.in_progress);
        let ghost head = out@;
        let mut i: usize = 0;
        while i < 6
            invariant
                0 <= i <= 6,
                out@ == head + self.reserved@.subrange(0, i as int),
                head.len() == 10,
            decreases 6 - i,
        {
            out.push(self.reserved[i]);
            assert(out@ =~= head + self.reserved@.subrange(0, i + 1));
            i += 1;
        }
        assert(self.reserved@.subrange(0, 6) =~= self.reserved@);
        assert(out@ =~= spec_ser_status(*self));
        out
    }

    /// Parses a 16-byte status frame. Fails exactly on a wrong length or a
    /// status code outside the closed enumeration; on success the parsed
    /// frame re-serializes to the input bytes.
    pub fn deser(b: &Vec<u8>) -> (r: Result<PicobootStatusCmd, CodecError>)
        ensures
            r is Ok <==> (b@.len() == 16 && spec_status_from_u32(spec_u32_at(b@, 4)) is Some),
            r matches Ok(s) ==> spec_ser_status(s) == b@,
            r matches Ok(s) ==> s.token == spec_u32_at(b@, 0) && Some(s.status)
                == spec_status_from_u32(spec_u32_at(b@, 4)) && s.cmd_id == b@[8] && s.in_progress
                == b@[9] && s.reserved@ == b@.subrange(10, 16),
            b@.len() != 16 ==> r == Err::<PicobootStatusCmd, CodecError>(CodecError::WrongLength),
            b@.len() == 16 && spec_status_from_u32(spec_u32_at(b@, 4)) is None ==> r == Err::<
                PicobootStatusCmd,
                CodecError,
            >(CodecError::UnknownStatus),
    {
        if b.len() != 16 {
            return Err(CodecError::WrongLength);
        }
        let token = read_u32_le(b, 0);
        let code = read_u32_le(b, 4);
        let status = match PicobootStatus::from_u32(code) {
            Some(s) => s,
            None => {
                return Err(CodecError::UnknownStatus);
            },
        };
        let cmd_id = b[8];
        let in_progress = b[9];
        let reserved: [u8; 6] = [b[10], b[11], b[12], b[13], b[14], b[15]];
        let s = PicobootStatusCmd { token, status, cmd_id, in_progress, reserved };
        proof {
            lemma_le32_encode(b@[0], b@[1], b@[2], b@[3]);
            lemma_le32_encode(b@[4], b@[5], b@[6], b@[7]);
            lemma_status_code_round(code);
            assert(s.reserved@ =~= b@.subrange(10, 16));
            assert(spec_ser_status(s) =~= b@);
        }
        Ok(s)
    }
}

/// Parsing the wire image of a command frame gives every field back: with
/// `PicobootCmd::deser`'s contract this is the codec round trip for command
/// frames.
pub proof fn lemma_cmd_frame_round_trip(c: PicobootCmd)
    requires
        c.magic == PICOBOOT_MAGIC,
    ensures
        spec_ser_cmd(c).len() == 32,
        spec_u32_at(spec_ser_cmd(c), 0) == PICOBOOT_MAGIC,
        spec_u32_at(spec_ser_cmd(c), 4) == c.token,
        spec_ser_cmd(c)[8] == c.cmd_id,
        spec_ser_cmd(c)[9] == c.cmd_size,
        spec_u16_from_le(spec_ser_cmd(c)[10], spec_ser_cmd(c)[11]) == c.reserved,
        spec_u32_at(spec_ser_cmd(c), 12) == c.transfer_len,
        spec_ser_cmd(c).subrange(16, 32) == c.args@,
{
    let b = spec_ser_cmd(c);
    crate::bytes::lemma_le32_decode(c.magic);
    crate::bytes::lemma_le32_decode(c.token);
    crate::bytes::lemma_le16_decode(c.reserved);
    crate::bytes::lemma_le32_decode(c.transfer_len);
    assert(b[0] == spec_le32(c.magic)[0] && b[1] == spec_le32(c.magic)[1]
        && b[2] == spec_le32(c.magic)[2] && b[3] == spec_le32(c.magic)[3]);
    assert(b[4] == spec_le32(c.token)[0] && b[5] == spec_le32(c.token)[1]
        && b[6] == spec_le32(c.token)[2] && b[7] == spec_le32(c.token)[3]);
    assert(b[10] == spec_le16(c.reserved)[0] && b[11] == spec_le16(c.reserved)[1]);
    assert(b[12] == spec_le32(c.transfer_len)[0] && b[13] == spec_le32(c.transfer_len)[1]
        && b[14] == spec_le32(c.transfer_len)[2] && b[15] == spec_le32(c.transfer_len)[3]);
    assert(b.subrange(16, 32) =~= c.args@);
}

/// Parsing the wire image of a status frame gives every field back: with
/// `PicobootStatusCmd::deser`'s contract this is the codec round trip for
/// status frames.
pub proof fn lemma_status_frame_round_trip(s: PicobootStatusCmd)
    ensures
        spec_ser_status(s).len() == 16,
        spec_u32_at(spec_ser_status(s), 0) == s.token,
        spec_status_from_u32(spec_u32_at(spec_ser_status(s), 4)) == Some(s.status),
        spec_ser_status(s)[8] == s.cmd_id,
        spec_ser_status(s)[9] == s.in_progress,
        spec_ser_status(s).subrange(10, 16) == s.reserved@,
{
    let b = spec_ser_status(s);
    crate::bytes::lemma_le32_decode(s.token);
    crate::bytes::lemma_le32_decode(spec_status_u32(s.status));
    lemma_status_code_complete(s.status);
    assert(b[0] == spec_le32(s.token)[0] && b[1] == spec_le32(s.token)[1]
        && b[2] == spec_le32(s.token)[2] && b[3] == spec_le32(s.token)[3]);
    assert(b[4] == spec_le32(spec_status_u32(s.status))[0]
        && b[5] == spec_le32(spec_status_u32(s.status))[1]
        && b[6] == spec_le32(spec_status_u32(s.status))[2]
        && b[7] == spec_le32(spec_status_u32(s.status))[3]);
    assert(b.subrange(10, 16) =~= s.reserved@);
}

/// Serializing the status code a wire value names gives the value back.
pub proof fn lemma_status_code_round(x: u32)
    ensures
        spec_status_from_u32(x) matches Some(s) ==> spec_status_u32(s) == x,
{
}

/// Parsing the wire value of a status code gives the code back.
pub proof fn lemma_status_code_complete(s: PicobootStatus)
    ensures
        spec_status_from_u32(spec_status_u32(s)) == Some(s),
{
}

} // verus!
