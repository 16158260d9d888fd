//! The interrupt descriptor table.
use vstd::prelude::*;
use vstd::arithmetic::power2::lemma2_to64;
use crate::bit_field::{BitField, with_field, lemma_set_in_zero};
use crate::x86_64::{DescriptorTablePointer, SegmentSelector, VirtAddr};

verus! {

/// The options word of an IDT entry.
#[derive(Clone, Copy, PartialEq, Eq, Debug)]
pub struct EntryOptions(pub u16);

impl EntryOptions {
    /// Options with only the must-be-one bits 9..=11 set: not present,
    /// interrupts disabled, ring 0, no stack switch.
    pub fn minimal() -> (r: Self)
        ensures
            r.0 == 0x0e00,
    {
        let mut options: u16 = 0;
        proof {
            lemma2_to64();
            lemma_set_in_zero(9, 11, 7);
        }
        options.set_bits(9..=11, 0b111);
        EntryOptions(options)
    }

    /// Sets or clears the present bit 15.
    pub fn set_present(&mut self, present: bool) -> (r: &mut Self)
        ensures
            r.0 == with_field(old(self).0 as nat, 15, 15, if present { 1 } else { 0 }),
            *final(self) == *final(r),
    {
        proof {
            lemma2_to64();
        }
        self.0.set_bits(15u8, if present { 1 } else { 0 });
        self
    }

    /// Sets bit 8, which leaves interrupts enabled in the handler, to the
    /// opposite of `disable`.
    pub fn disable_interrupts(&mut self, disable: bool) -> (r: &mut Self)
        ensures
            r.0 == with_field(old(self).0 as nat, 8, 8, if disable { 0 } else { 1 }),
            *final(self) == *final(r),
    {
        proof {
            lemma2_to64();
        }
        self.0.set_bits(8u8, if disable { 0 } else { 1 });
        self
    }

    /// Sets the descriptor privilege level, bits 13..=14; `dpl` must fit in
    /// two bits.
    pub fn set_privilege_level(&mut self, dpl: u16) -> (r: &mut Self)
        requires
            dpl < 4,
        ensures
            r.0 == with_field(old(self).0 as nat, 13, 14, dpl as nat),
            *final(self) == *final(r),
    {
        proof {
            lemma2_to64();
        }
        self.0.set_bits(13..=14, dpl);
        self
    }

    /// Selects interrupt stack table slot `index` (counted from 0) as the
    /// handler's stack: the hardware counts the slots from 1, so bits 0..=2
    /// hold `index + 1`, which must fit in three bits.
    pub fn set_stack_index(&mut self, index: u16) -> (r: &mut Self)
        requires
            index < 7,
        ensures
            r.0 == with_field(old(self).0 as nat, 0, 2, index as nat + 1),
            *final(self) == *final(r),
    {
        proof {
            lemma2_to64();
        }
        self.0.set_bits(0..=2, index + 1);
        self
    }
}

/// An entry of the interrupt descriptor table: the handler address split in
/// three parts, the code segment to run it in, and its options.
#[derive(Clone, Copy, PartialEq, Eq, Debug)]
pub struct Entry {
    pub pointer_low: u16,
    pub gdt_selector: SegmentSelector,
    pub options: EntryOptions,
    pub pointer_middle: u16,
    pub pointer_high: u32,
    pub reserved: u32,
}

/// The entry with no handler.
pub open spec fn missing_entry() -> Entry {
    Entry {
        pointer_low: 0,
        gdt_selector: SegmentSelector(0),
        options: EntryOptions(0x0e00),
        pointer_middle: 0,
        pointer_high: 0,
        reserved: 0,
    }
}

impl Entry {
    /// The entry with no handler: not present, null selector.
    pub fn missing() -> (r: Self)
        ensures
            r == missing_entry(),
    {
        Entry {
            pointer_low: 0,
            gdt_selector: SegmentSelector::null(),
            options: EntryOptions::minimal(),
            pointer_middle: 0,
            pointer_high: 0,
            reserved: 0,
        }
    }

    /// The handler address the entry points to.
    pub open spec fn spec_handler_addr(&self) -> nat {
        self.pointer_low as nat + self.pointer_middle as nat * 0x1_0000 + self.pointer_high as nat
            * 0x1_0000_0000
    }

    /// The handler address the entry points to.
    pub fn handler_addr(&self) -> (r: u64)
        ensures
            r == self.spec_handler_addr(),
    {
        let low = self.pointer_low as u64;
        let middle = self.pointer_middle as u64;
        let high = self.pointer_high as u64;
        let r = low | (middle << 16u64) | (high << 32u64);
        assert(r == low + middle * 0x1_0000 + high * 0x1_0000_0000) by (bit_vector)
            requires
                r == low | (middle << 16u64) | (high << 32u64),
                low < 0x1_0000,
                middle < 0x1_0000,
                high < 0x1_0000_0000,
        ;
        r
    }

    /// Points the entry at the handler at `addr`, to run in `code_segment`,
    /// and marks it present; returns the options for further changes.
    pub fn set_handler_addr(&mut self, addr: u64, code_segment: SegmentSelector) -> (r:
        &mut EntryOptions)
        ensures
            final(self).pointer_low == addr % 0x1_0000,
            final(self).pointer_middle == (addr / 0x1_0000) % 0x1_0000,
            final(self).pointer_high == addr / 0x1_0000_0000,
            final(self).gdt_selector == code_segment,
            final(self).reserved == old(self).reserved,
            r.0 == with_field(old(self).options.0 as nat, 15, 15, 1),
            final(self).options == *final(r),
    {
        self.pointer_low = addr as u16;
        self.pointer_middle = (addr >> 16u64) as u16;
        self.pointer_high = (addr >> 32u64) as u32;
        assert(addr as u16 == addr % 0x1_0000) by (bit_vector);
        assert((addr >> 16u64) as u16 == (addr / 0x1_0000) % 0x1_0000) by (bit_vector);
        assert((addr >> 32u64) as u32 == addr / 0x1_0000_0000) by (bit_vector);
        self.gdt_selector = code_segment;
        self.options.set_present(true);
        &mut self.options
    }
}

/// An entry gives back the handler address it was pointed at.
pub proof fn lemma_handler_addr_round_trip(entry: Entry, addr: u64)
    requires
        entry.pointer_low == addr % 0x1_0000,
        entry.pointer_middle == (addr / 0x1_0000) % 0x1_0000,
        entry.pointer_high == addr / 0x1_0000_0000,
    ensures
        entry.spec_handler_addr() == addr,
{
    let a = addr as int;
    assert(a == a % 0x1_0000 + ((a / 0x1_0000) % 0x1_0000) * 0x1_0000 + (a / 0x1_0000_0000)
        * 0x1_0000_0000) by (nonlinear_arith);
}

/// Whether vector `index` has an entry for a handler that takes no error code
/// and returns: the exceptions 0-7, 9, 16, 19 and 20, and vectors 32-255.
pub open spec fn is_plain_vector(index: int) -> bool {
    ||| 0 <= index <= 7
    ||| index == 9
    ||| index == 16
    ||| index == 19
    ||| index == 20
    ||| 32 <= index <= 255
}

/// The interrupt descriptor table: one entry for each of the 256 vectors.
/// The exceptions are named by their fields.
#[derive(Clone, Copy, Debug)]
pub struct InterruptDescriptorTable {
    pub divide_error: Entry,
    pub debug: Entry,
    pub non_maskable_interrupt: Entry,
    pub breakpoint: Entry,
    pub overflow: Entry,
    pub bound_range_exceeded: Entry,
    pub invalid_opcode: Entry,
    pub device_not_available: Entry,
    pub double_fault: Entry,
    pub coprocessor_segment_overrun: Entry,
    pub invalid_tss: Entry,
    pub segment_not_present: Entry,
    pub stack_segment_fault: Entry,
    pub general_protection_fault: Entry,
    pub page_fault: Entry,
    pub reserved_1: Entry,
    pub x87_floating_point: Entry,
    pub alignment_check: Entry,
    pub machine_check: Entry,
    pub simd_floating_point: Entry,
    pub virtualization: Entry,
    /// Vectors 21 to 28.
    pub reserved_2: [Entry; 8],
    pub vmm_communication_exception: Entry,
    pub security_exception: Entry,
    pub reserved_3: Entry,
    /// Vectors 32 to 255, the ones that devices raise.
    pub interrupts: [Entry; 224],
}

impl View for InterruptDescriptorTable {
    type V = Seq<Entry>;

    /// The entries by vector number.
    open spec fn view(&self) -> Seq<Entry> {
        seq![
            self.divide_error,
            self.debug,
            self.non_maskable_interrupt,
            self.breakpoint,
            self.overflow,
            self.bound_range_exceeded,
            self.invalid_opcode,
            self.device_not_available,
            self.double_fault,
            self.coprocessor_segment_overrun,
            self.invalid_tss,
            self.segment_not_present,
            self.stack_segment_fault,
            self.general_protection_fault,
            self.page_fault,
            self.reserved_1,
            self.x87_floating_point,
            self.alignment_check,
            self.machine_check,
            self.simd_floating_point,
            self.virtualization,
        ] + self.reserved_2@ + seq![
            self.vmm_communication_exception,
            self.security_exception,
            self.reserved_3,
        ] + self.interrupts@
    }
}

/// Size in bytes of the table as the CPU reads it.
pub const IDT_SIZE: u16 = 4096;

impl InterruptDescriptorTable {
    /// A table in which every entry is missing.
    pub fn new() -> (r: Self)
        ensures
            r@.len() == 256,
            forall|i: int| 0 <= i < 256 ==> #[trigger] r@[i] == missing_entry(),
    {
        InterruptDescriptorTable {
            divide_error: Entry::missing(),
            debug: Entry::missing(),
            non_maskable_interrupt: Entry::missing(),
            breakpoint: Entry::missing(),
            overflow: Entry::missing(),
            bound_range_exceeded: Entry::missing(),
            invalid_opcode: Entry::missing(),
            device_not_available: Entry::missing(),
            double_fault: Entry::missing(),
            coprocessor_segment_overrun: Entry::missing(),
            invalid_tss: Entry::missing(),
            segment_not_present: Entry::missing(),
            stack_segment_fault: Entry::missing(),
            general_protection_fault: Entry::missing(),
            page_fault: Entry::missing(),
            reserved_1: Entry::missing(),
            x87_floating_point: Entry::missing(),
            alignment_check: Entry::missing(),
            machine_check: Entry::missing(),
            simd_floating_point: Entry::missing(),
            virtualization: Entry::missing(),
            reserved_2: [Entry::missing();8],
            vmm_communication_exception: Entry::missing(),
            security_exception: Entry::missing(),
            reserved_3: Entry::missing(),
            interrupts: [Entry::missing();224],
        }
    }

    /// The entry of vector `index`, which must be neither reserved, nor an
    /// exception that pushes an error code, nor one that must not return.
    pub fn index(&self, index: usize) -> (r: &Entry)
        requires
            is_plain_vector(index as int),
        ensures
            *r == self@[index as int],
    {
        match index {
            0 => &self.divide_error,
            1 => &self.debug,
            2 => &self.non_maskable_interrupt,
            3 => &self.breakpoint,
            4 => &self.overflow,
            5 => &self.bound_range_exceeded,
            6 => &self.invalid_opcode,
            7 => &self.device_not_available,
            9 => &self.coprocessor_segment_overrun,
            16 => &self.x87_floating_point,
            19 => &self.simd_floating_point,
            20 => &self.virtualization,
            _ => &self.interrupts[index - 32],
        }
    }

    /// The entry of vector `index`, to change it; under the same condition as
    /// `index`.
    pub fn index_mut(&mut self, index: usize) -> (r: &mut Entry)
        requires
            is_plain_vector(index as int),
        ensures
            *r == old(self)@[index as int],
            final(self)@ == old(self)@.update(index as int, *final(r)),
    {
        match index {
            0 => &mut self.divide_error,
            1 => &mut self.debug,
            2 => &mut self.non_maskable_interrupt,
            3 => &mut self.breakpoint,
            4 => &mut self.overflow,
            5 => &mut self.bound_range_exceeded,
            6 => &mut self.invalid_opcode,
            7 => &mut self.device_not_available,
            9 => &mut self.coprocessor_segment_overrun,
            16 => &mut self.x87_floating_point,
            19 => &mut self.simd_floating_point,
            20 => &mut self.virtualization,
            _ => &mut self.interrupts[index - 32],
        }
    }

    /// The entries by vector number.
    pub fn entries(&self) -> (r: [Entry; 256])
        ensures
            r@ == self@,
    {
        let mut r = [Entry::missing();256];
        let mut i: usize = 0;
        while i < 256
            invariant
                i <= 256,
                self@.len() == 256,
                forall|j: int| 0 <= j < i ==> #[trigger] r@[j] == self@[j],
            decreases 256 - i,
        {
            r[i] = self.entry_at(i);
            i = i + 1;
        }
        assert(r@ =~= self@);
        r
    }

    /// The entry of any vector.
    fn entry_at(&self, index: usize) -> (r: Entry)
        requires
            index < 256,
        ensures
            r == self@[index as int],
    {
        if index < 21 {
            match index {
                0 => self.divide_error,
                1 => self.debug,
                2 => self.non_maskable_interrupt,
                3 => self.breakpoint,
                4 => self.overflow,
                5 => self.bound_range_exceeded,
                6 => self.invalid_opcode,
                7 => self.device_not_available,
                8 => self.double_fault,
                9 => self.coprocessor_segment_overrun,
                10 => self.invalid_tss,
                11 => self.segment_not_present,
                12 => self.stack_segment_fault,
                13 => self.general_protection_fault,
                14 => self.page_fault,
                15 => self.reserved_1,
                16 => self.x87_floating_point,
                17 => self.alignment_check,
                18 => self.machine_check,
                19 => self.simd_floating_point,
                _ => self.virtualization,
            }
        } else if index < 29 {
            self.reserved_2[index - 21]
        } else if index == 29 {
            self.vmm_communication_exception
        } else if index == 30 {
            self.security_exception
        } else if index == 31 {
            self.reserved_3
        } else {
            self.interrupts[index - 32]
        }
    }

    /// The operand of `lidt` for this table placed at `base`.
    pub fn pointer(base: VirtAddr) -> (r: DescriptorTablePointer)
        ensures
            r.base == base,
            r.limit == IDT_SIZE - 1,
    {
        DescriptorTablePointer { limit: IDT_SIZE - 1, base }
    }
}

} // verus!
