//! Interrupt vectors, the error codes the CPU pushes and the decisions of the
//! interrupt handlers.
pub mod idt;
pub mod keyboard;

use vstd::prelude::*;
use vstd::arithmetic::power2::{pow2, lemma2_to64};
use crate::bit_field::{field, lemma_set_empty_span};
use crate::gdt::DOUBLE_FAULT_IST_INDEX;
use crate::x86_64::SegmentSelector;
use idt::{Entry, EntryOptions, InterruptDescriptorTable, missing_entry};

verus! {

pub use crate::pic::ChainedPics;
pub use crate::x86_64::{InterruptStackFrame, InterruptStackFrameValue};

/// First vector of the primary PIC.
pub const PIC_1_OFFSET: u8 = 32;

/// First vector of the secondary PIC.
pub const PIC_2_OFFSET: u8 = PIC_1_OFFSET + 8;

/// The device interrupts the kernel handles.
#[derive(Clone, Copy, PartialEq, Eq, Debug)]
pub enum InterruptIndex {
    Timer,
    Keyboard,
}

impl InterruptIndex {
    /// The vector: the timer is line 0 of the primary PIC, the keyboard line 1.
    pub open spec fn spec_as_u8(&self) -> u8 {
        match self {
            InterruptIndex::Timer => PIC_1_OFFSET,
            InterruptIndex::Keyboard => (PIC_1_OFFSET + 1) as u8,
        }
    }

    /// The vector of the interrupt.
    #[verifier::when_used_as_spec(spec_as_u8)]
    pub fn as_u8(&self) -> (r: u8)
        ensures
            r == self.spec_as_u8(),
    {
        match self {
            InterruptIndex::Timer => PIC_1_OFFSET,
            InterruptIndex::Keyboard => PIC_1_OFFSET + 1,
        }
    }
}

/// The error code an exception pushes.
#[derive(Clone, Copy, PartialEq, Eq, Debug)]
pub struct ErrorCode(pub u64);

/// The error code a page fault pushes.
#[derive(Clone, Copy, PartialEq, Eq, Debug)]
pub struct PageFaultErrorCode(pub u64);

/// Addresses of the kernel's interrupt handlers.
#[derive(Clone, Copy, PartialEq, Eq, Debug)]
pub struct KernelHandlers {
    pub divide_error: u64,
    pub breakpoint: u64,
    pub invalid_opcode: u64,
    pub double_fault: u64,
    pub general_protection_fault: u64,
    pub page_fault: u64,
    pub timer: u64,
    pub keyboard: u64,
}

/// The present entry for the handler at `addr`, run in `code_segment` with
/// interrupts disabled, in ring 0, on the interrupt stack table slot that
/// `stack` holds (0 for none).
pub open spec fn handler_entry(addr: u64, code_segment: SegmentSelector, stack: u16) -> Entry {
    Entry {
        pointer_low: (addr % 0x1_0000) as u16,
        gdt_selector: code_segment,
        options: EntryOptions((0x8e00 + stack) as u16),
        pointer_middle: ((addr / 0x1_0000) % 0x1_0000) as u16,
        pointer_high: (addr / 0x1_0000_0000) as u32,
        reserved: 0,
    }
}

/// The entry an `Entry::missing` becomes once pointed at `addr`.
fn present_entry(addr: u64, code_segment: SegmentSelector) -> (r: Entry)
    ensures
        r == handler_entry(addr, code_segment, 0),
{
    let mut entry = Entry::missing();
    entry.set_handler_addr(addr, code_segment);
    proof {
        lemma2_to64();
        assert(field(0x0e00, 15, 15) == 0);
        lemma_set_empty_span(0x0e00, 15, 15, 1);
    }
    entry
}

/// The kernel's interrupt descriptor table: handlers for the divide error,
/// breakpoint, invalid opcode, double fault (on its own stack), general
/// protection fault, page fault, timer and keyboard vectors, all run in
/// `code_segment`; every other entry missing.
pub fn kernel_idt(handlers: KernelHandlers, code_segment: SegmentSelector) -> (r:
    InterruptDescriptorTable)
    ensures
        r@.len() == 256,
        r@[0] == handler_entry(handlers.divide_error, code_segment, 0),
        r@[3] == handler_entry(handlers.breakpoint, code_segment, 0),
        r@[6] == handler_entry(handlers.invalid_opcode, code_segment, 0),
        r@[8] == handler_entry(handlers.double_fault, code_segment, (DOUBLE_FAULT_IST_INDEX + 1) as u16),
        r@[13] == handler_entry(handlers.general_protection_fault, code_segment, 0),
        r@[14] == handler_entry(handlers.page_fault, code_segment, 0),
        r@[InterruptIndex::Timer.spec_as_u8() as int] == handler_entry(handlers.timer, code_segment, 0),
        r@[InterruptIndex::Keyboard.spec_as_u8() as int] == handler_entry(
            handlers.keyboard,
            code_segment,
            0,
        ),
        forall|i: int|
            0 <= i < 256 && i != 0 && i != 3 && i != 6 && i != 8 && i != 13 && i != 14 && i != 32
                && i != 33 ==> #[trigger] r@[i] == missing_entry(),
{
    let mut idt = InterruptDescriptorTable::new();
    let ghost v0 = idt@;
    idt.divide_error = present_entry(handlers.divide_error, code_segment);
    idt.breakpoint = present_entry(handlers.breakpoint, code_segment);
    idt.invalid_opcode = present_entry(handlers.invalid_opcode, code_segment);
    let mut double_fault = present_entry(handlers.double_fault, code_segment);
    double_fault.options.set_stack_index(DOUBLE_FAULT_IST_INDEX);
    proof {
        lemma2_to64();
        assert(pow2(0) == 1);
        assert(0x8e00nat / pow2(0) == 0x8e00);
        assert(field(0x8e00, 0, 2) == 0);
        lemma_set_empty_span(0x8e00, 0, 2, 1);
    }
    idt.double_fault = double_fault;
    idt.general_protection_fault = present_entry(handlers.general_protection_fault, code_segment);
    idt.page_fault = present_entry(handlers.page_fault, code_segment);
    assert(idt@ =~= v0.update(0, idt.divide_error).update(3, idt.breakpoint).update(
        6,
        idt.invalid_opcode,
    ).update(8, idt.double_fault).update(13, idt.general_protection_fault).update(
        14,
        idt.page_fault,
    ));
    let timer = present_entry(handlers.timer, code_segment);
    *idt.index_mut(InterruptIndex::Timer.as_u8() as usize) = timer;
    let keyboard = present_entry(handlers.keyboard, code_segment);
    *idt.index_mut(InterruptIndex::Keyboard.as_u8() as usize) = keyboard;
    idt
}

} // verus!
