//! Verified core of a flasher for Raspberry Pi RP-series microcontrollers in
//! their BOOTSEL bootloader state.
//!
//! The library holds the logic that is worth proving: the UF2 page assembler,
//! the PICOBOOT command codec, the session state machine that stamps tokens
//! and plans the USB transfer sequence of each command, and the flash
//! programmer that orders erases, writes and read-back verification. The USB
//! transfers themselves are performed by a thin unverified front end that
//! executes the plans this library produces.

use vstd::prelude::*;

pub mod bytes;
pub mod cmd;
pub mod session;
pub mod program;
pub mod uf2;

pub use uf2::uf2_pages;

verus! {

/// Smallest writable/readable flash unit, in bytes.
pub const PICO_PAGE_SIZE: usize = 256;
/// Smallest erasable flash unit, in bytes.
pub const PICO_SECTOR_SIZE: u32 = 4096;
/// Physical base address of external flash.
pub const PICO_FLASH_START: u32 = 0x10000000;
/// End of SRAM on the RP2040, used as the stack pointer for reboot.
pub const PICO_STACK_POINTER: u32 = 0x20042000;

/// USB vendor id of Raspberry Pi.
pub const PICOBOOT_VID: u16 = 0x2E8A;
/// USB product id of an RP2040 in BOOTSEL mode.
pub const PICOBOOT_PID_RP2040: u16 = 0x0003;
/// USB product id of an RP2350 in BOOTSEL mode.
pub const PICOBOOT_PID_RP2350: u16 = 0x000F;

/// The chip family a PICOBOOT session talks to, derived from the USB product
/// id and immutable once the session is open.
#[derive(Debug, Clone, Copy, PartialEq, Eq, Structural)]
pub enum TargetID {
    Rp2040,
    Rp2350,
}

/// The chip family that a USB device with the given vendor and product id
/// exposes over PICOBOOT, if any.
pub open spec fn spec_device_type(vendor_id: u16, product_id: u16) -> Option<TargetID> {
    if vendor_id == PICOBOOT_VID && product_id == PICOBOOT_PID_RP2040 {
        Some(TargetID::Rp2040)
    } else if vendor_id == PICOBOOT_VID && product_id == PICOBOOT_PID_RP2350 {
        Some(TargetID::Rp2350)
    } else {
        None
    }
}

/// Classifies a USB device by vendor and product id: `Some` exactly for an
/// RP2040 or RP2350 in BOOTSEL mode.
pub fn picoboot_device_type(vendor_id: u16, product_id: u16) -> (r: Option<TargetID>)
    ensures
        r == spec_device_type(vendor_id, product_id),
{
    if vendor_id == PICOBOOT_VID && product_id == PICOBOOT_PID_RP2040 {
        Some(TargetID::Rp2040)
    } else if vendor_id == PICOBOOT_VID && product_id == PICOBOOT_PID_RP2350 {
        Some(TargetID::Rp2350)
    } else {
        None
    }
}

/// True exactly for the devices that `picoboot_device_type` recognises.
pub fn is_picoboot_device(vendor_id: u16, product_id: u16) -> (r: bool)
    ensures
        r == spec_device_type(vendor_id, product_id) is Some,
{
    picoboot_device_type(vendor_id, product_id).is_some()
}

/// True for an interface alternate setting that identifies the PICOBOOT
/// interface: vendor-specific class, zero subclass, zero protocol.
pub fn is_picoboot_interface(class: u8, subclass: u8, protocol: u8) -> (r: bool)
    ensures
        r == (class == 0xFF && subclass == 0 && protocol == 0),
{
    class == 0xFF && subclass == 0 && protocol == 0
}

/// True for an interface alternate setting that identifies the vendor reset
/// interface of a running RP device; protocol 1 distinguishes it from
/// PICOBOOT's protocol 0.
pub fn is_reset_interface(class: u8, subclass: u8, protocol: u8) -> (r: bool)
    ensures
        r == (class == 0xFF && subclass == 0 && protocol == 1),
{
    class == 0xFF && subclass == 0 && protocol == 1
}

} // verus!
