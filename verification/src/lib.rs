//! A small x86_64 hobby kernel: bit fields, descriptor tables, the 8259 PIC
//! pair and a VGA text screen, with the logic that decides what the hardware
//! gets proved against its contracts.
pub mod bit_field;
pub mod x86_64;
pub mod gdt;
pub mod interrupts;
pub mod port;
pub mod pic;
pub mod screen;
pub mod lazy_static;

use vstd::prelude::*;

verus! {

/// The exit codes the kernel reports to QEMU's debug-exit device.
#[derive(Clone, Copy, PartialEq, Eq, Debug)]
pub enum QemuExitCode {
    Success,
    Failed,
}

impl QemuExitCode {
    /// The value written to the device.
    pub fn code(&self) -> (r: u32)
        ensures
            r == match self {
                QemuExitCode::Success => 0x10u32,
                QemuExitCode::Failed => 0x11u32,
            },
    {
        match self {
            QemuExitCode::Success => 0x10,
            QemuExitCode::Failed => 0x11,
        }
    }
}

} // verus!
