//! The global descriptor table and the task state segment.
use vstd::prelude::*;
use vstd::arithmetic::power2::{pow2, lemma2_to64, lemma2_to64_rest};
use crate::bit_field::{
    BitField, field, span_len, lemma_set_empty_span, lemma_set_in_zero, lemma_split_at_field,
};
use vstd::arithmetic::div_mod::{
    lemma_fundamental_div_mod_converse_div, lemma_fundamental_div_mod_converse_mod, lemma_small_mod,
};
use crate::x86_64::{DescriptorTablePointer, PrivilegeLevel, SegmentSelector, VirtAddr, selector_bits};

verus! {

/// The interrupt stack table slot that holds the double-fault stack.
pub const DOUBLE_FAULT_IST_INDEX: u16 = 0;

/// Size in bytes of the 64-bit task state segment.
pub const TSS_SIZE: u16 = 104;

/// Number of 8-byte slots in the descriptor table.
pub const GDT_SLOTS: usize = 8;

/// The 64-bit task state segment: the stacks the CPU switches to.
#[derive(Clone, Copy, Debug)]
pub struct TaskStateSegment {
    pub reserved_1: u32,
    /// The full 64-bit canonical forms of the stack pointers (RSP) for privilege levels 0-2.
    pub privilege_stack_table: [VirtAddr; 3],
    pub reserved_2: u64,
    /// The full 64-bit canonical forms of the interrupt stack table (IST) pointers.
    pub interrupt_stack_table: [VirtAddr; 7],
    pub reserved_3: u64,
    pub reserved_4: u16,
    /// The 16-bit offset to the I/O permission bit map from the 64-bit TSS base.
    pub iomap_base: u16,
}

impl TaskStateSegment {
    /// A segment with zeroed privilege and interrupt stack tables and an empty
    /// I/O permission bitmap: since the segment limit is always the size of the
    /// segment minus one, `iomap_base` is the size of the segment.
    pub fn new() -> (r: Self)
        ensures
            forall|i: int| 0 <= i < 3 ==> #[trigger] r.privilege_stack_table[i].0 == 0,
            forall|i: int| 0 <= i < 7 ==> #[trigger] r.interrupt_stack_table[i].0 == 0,
            r.iomap_base == TSS_SIZE,
            r.reserved_1 == 0 && r.reserved_2 == 0 && r.reserved_3 == 0 && r.reserved_4 == 0,
    {
        TaskStateSegment {
            privilege_stack_table: [VirtAddr::zero();3],
            interrupt_stack_table: [VirtAddr::zero();7],
            iomap_base: TSS_SIZE,
            reserved_1: 0,
            reserved_2: 0,
            reserved_3: 0,
            reserved_4: 0,
        }
    }

    /// The kernel's segment: a fresh one whose double-fault slot of the
    /// interrupt stack table holds `stack_top`, the top of a stack that grows
    /// downward.
    pub fn with_double_fault_stack(stack_top: VirtAddr) -> (r: Self)
        ensures
            r.interrupt_stack_table[DOUBLE_FAULT_IST_INDEX as int] == stack_top,
            forall|i: int|
                0 <= i < 7 && i != DOUBLE_FAULT_IST_INDEX ==> #[trigger] r.interrupt_stack_table[i].0
                    == 0,
            forall|i: int| 0 <= i < 3 ==> #[trigger] r.privilege_stack_table[i].0 == 0,
            r.iomap_base == TSS_SIZE,
            r.reserved_1 == 0 && r.reserved_2 == 0 && r.reserved_3 == 0 && r.reserved_4 == 0,
    {
        let mut tss = TaskStateSegment::new();
        tss.interrupt_stack_table[DOUBLE_FAULT_IST_INDEX as usize] = stack_top;
        tss
    }
}

/// Bits of a segment descriptor (those ignored in 64-bit mode are left out).
pub struct DescriptorFlags;

impl DescriptorFlags {
    pub const ACCESSED: u64 = 1 << 40;
    pub const USER_SEGMENT: u64 = 1 << 44;
    pub const DPL_RING_3: u64 = 3 << 45;
    pub const PRESENT: u64 = 1 << 47;
    pub const COMMON: u64 = Self::USER_SEGMENT | Self::ACCESSED | Self::PRESENT;
    pub const KERNEL_CODE64: u64 = Self::COMMON;
}

/// A segment descriptor: a user segment takes one slot of the table, a system
/// segment two.
#[derive(Clone, Copy, PartialEq, Eq, Debug)]
pub enum Descriptor {
    UserSegment(u64),
    SystemSegment(u64, u64),
}

impl Descriptor {
    /// The table slots the descriptor fills, in order.
    pub open spec fn words(self) -> Seq<u64> {
        match self {
            Descriptor::UserSegment(value) => seq![value],
            Descriptor::SystemSegment(low, high) => seq![low, high],
        }
    }

    /// The privilege level of a selector for this descriptor: ring 3 where a
    /// user segment has either bit of its privilege field set, ring 0 otherwise.
    pub open spec fn selector_rpl(self) -> PrivilegeLevel {
        match self {
            Descriptor::UserSegment(value) => if value & DescriptorFlags::DPL_RING_3 != 0 {
                PrivilegeLevel::Ring3
            } else {
                PrivilegeLevel::Ring0
            },
            Descriptor::SystemSegment(_, _) => PrivilegeLevel::Ring0,
        }
    }

    /// The 64-bit kernel code segment.
    pub fn kernel_segment() -> (r: Self)
        ensures
            r == Descriptor::UserSegment(DescriptorFlags::KERNEL_CODE64),
    {
        Descriptor::UserSegment(DescriptorFlags::KERNEL_CODE64)
    }

    /// The system segment of an available 64-bit task state segment at `base`:
    /// limit `TSS_SIZE - 1` in bits 0..16, base bits 0..24 in bits 16..40,
    /// type `0b1001` in bits 40..44, the present bit 47, base bits 24..32 in
    /// bits 56..64 of the low word, and base bits 32..64 in the high word.
    pub open spec fn tss_segment_spec(base: u64) -> Self {
        Descriptor::SystemSegment(
            (103 + field(base as nat, 0, 23) * 0x1_0000 + 9 * 0x100_0000_0000 + 0x8000_0000_0000
                + field(base as nat, 24, 31) * 0x100_0000_0000_0000) as u64,
            (base as nat / 0x1_0000_0000) as u64,
        )
    }

    /// The system segment of an available 64-bit task state segment at `base`.
    pub fn tss_segment(base: u64) -> (r: Self)
        ensures
            r == Self::tss_segment_spec(base),
    {
        let mut low = DescriptorFlags::PRESENT;
        let a = base.get_bits(0..24);
        let c = base.get_bits(24..32);
        let ghost low0 = low as nat;
        proof {
            lemma2_to64();
            lemma2_to64_rest();
            assert(1u64 << 47u64 == 0x8000_0000_0000) by (bit_vector);
            assert(low0 == 0x8000_0000_0000);
            assert(span_len(16, 39) == 24);
            assert(low0 / pow2(16) == 0x8000_0000);
            assert(field(low0, 16, 39) == 0);
            lemma_set_empty_span(low0, 16, 39, a as nat);
        }
        // base
        low.set_bits(16..40, a);
        let ghost low1 = low as nat;
        proof {
            assert(low1 == low0 + a * 0x1_0000);
            assert(a < 0x100_0000);
            assert(low1 < 0x1_0000_0000_0000);
            assert(low1 / 0x100_0000_0000_0000 == 0);
            lemma_set_empty_span(low1, 56, 63, c as nat);
        }
        low.set_bits(56..64, c);
        let ghost low2 = low as nat;
        proof {
            lemma_fundamental_div_mod_converse_mod(
                low2 as int,
                0x1_0000,
                0x8000_0000 + a + c * 0x100_0000_0000,
                0,
            );
            lemma_set_empty_span(low2, 0, 15, 103);
        }
        // limit (the `-1` is needed since the bound is inclusive)
        low.set_bits(0..16, (TSS_SIZE - 1) as u64);
        let ghost low3 = low as nat;
        proof {
            lemma_fundamental_div_mod_converse_div(
                low3 as int,
                0x100_0000_0000,
                0x80 + c * 0x1_0000,
                103 + a * 0x1_0000,
            );
            lemma_fundamental_div_mod_converse_mod(
                low3 as int / 0x100_0000_0000,
                16,
                8 + c * 0x1000,
                0,
            );
            lemma_set_empty_span(low3, 40, 43, 9);
        }
        // type (0b1001 = available 64-bit tss)
        low.set_bits(40..44, 0b1001);
        proof {
            assert(low == low3 + 9 * 0x100_0000_0000);
            assert(low3 == low2 + 103);
            assert(low2 == low1 + c * 0x100_0000_0000_0000);
            assert(low1 == low0 + a * 0x1_0000);
        }
        let mut high: u64 = 0;
        let h = base.get_bits(32..64);
        proof {
            lemma_set_in_zero(0, 31, h as nat);
            assert(base as nat / 0x1_0000_0000 < 0x1_0000_0000);
            assert(span_len(32, 63) == 32);
            assert(pow2(32) == 0x1_0000_0000);
            lemma_small_mod(base as nat / 0x1_0000_0000, 0x1_0000_0000);
            assert(h == base as nat / 0x1_0000_0000);
        }
        high.set_bits(0..32, h);
        assert(high == base as nat / 0x1_0000_0000);
        Descriptor::SystemSegment(low, high)
    }
}

/// The task state segment descriptor names the segment the CPU loads: its
/// base, read back from base bits 0..24 (bits 16..40 of the low word), base
/// bits 24..32 (bits 56..64 of the low word) and base bits 32..64 (the high
/// word), is `base`; its limit (bits 0..16) is `TSS_SIZE - 1`, its type
/// (bits 40..44) is an available 64-bit TSS, and it is present (bit 47), with
/// the bits between them clear.
pub proof fn lemma_tss_segment_reads_back(base: u64)
    ensures
        Descriptor::tss_segment_spec(base) matches Descriptor::SystemSegment(low, high) && {
            &&& field(low as nat, 16, 39) + field(low as nat, 56, 63) * 0x100_0000 + high as nat
                * 0x1_0000_0000 == base
            &&& field(low as nat, 0, 15) == TSS_SIZE - 1
            &&& field(low as nat, 40, 43) == 0b1001
            &&& field(low as nat, 44, 46) == 0
            &&& field(low as nat, 47, 47) == 1
            &&& field(low as nat, 48, 55) == 0
        },
{
    lemma2_to64();
    lemma2_to64_rest();
    let a = field(base as nat, 0, 23) as int;
    let c = field(base as nat, 24, 31) as int;
    let h = base as int / 0x1_0000_0000;
    lemma_split_at_field(base as nat, 24, 31);
    assert(a == base as int % 0x100_0000);
    assert(0 <= a < 0x100_0000);
    assert(0 <= c < 0x100);
    assert(base as int == a + c * 0x100_0000 + h * 0x1_0000_0000);
    let lw = 103 + a * 0x1_0000 + 9 * 0x100_0000_0000 + 0x8000_0000_0000 + c
        * 0x100_0000_0000_0000;
    assert(0 <= lw < 0x1_0000_0000_0000_0000);
    let low = lw as u64;
    assert(low as int == lw);
    let above16 = a + (9 + 0x80 + c * 0x1_0000) * 0x100_0000;
    let below40 = 103 + a * 0x1_0000;
    assert(lw == above16 * 0x1_0000 + 103) by (nonlinear_arith)
        requires
            lw == 103 + a * 0x1_0000 + 9 * 0x100_0000_0000 + 0x8000_0000_0000 + c
                * 0x100_0000_0000_0000,
            above16 == a + (9 + 0x80 + c * 0x1_0000) * 0x100_0000,
    ;
    assert(lw == (9 + 0x80 + c * 0x1_0000) * 0x100_0000_0000 + below40) by (nonlinear_arith)
        requires
            lw == 103 + a * 0x1_0000 + 9 * 0x100_0000_0000 + 0x8000_0000_0000 + c
                * 0x100_0000_0000_0000,
            below40 == 103 + a * 0x1_0000,
    ;
    assert(lw == (8 + c * 0x1000) * 0x1000_0000_0000 + below40 + 9 * 0x100_0000_0000)
        by (nonlinear_arith)
        requires
            lw == 103 + a * 0x1_0000 + 9 * 0x100_0000_0000 + 0x8000_0000_0000 + c
                * 0x100_0000_0000_0000,
            below40 == 103 + a * 0x1_0000,
    ;
    assert(lw == (1 + c * 0x200) * 0x8000_0000_0000 + below40 + 9 * 0x100_0000_0000)
        by (nonlinear_arith)
        requires
            lw == 103 + a * 0x1_0000 + 9 * 0x100_0000_0000 + 0x8000_0000_0000 + c
                * 0x100_0000_0000_0000,
            below40 == 103 + a * 0x1_0000,
    ;
    assert(lw == (c * 0x100) * 0x1_0000_0000_0000 + below40 + 9 * 0x100_0000_0000
        + 0x8000_0000_0000) by (nonlinear_arith)
        requires
            lw == 103 + a * 0x1_0000 + 9 * 0x100_0000_0000 + 0x8000_0000_0000 + c
                * 0x100_0000_0000_0000,
            below40 == 103 + a * 0x1_0000,
    ;
    // limit
    lemma_fundamental_div_mod_converse_mod(
        lw,
        0x1_0000,
        above16,
        103,
    );
    // base bits 0..24
    lemma_fundamental_div_mod_converse_div(
        lw,
        0x1_0000,
        above16,
        103,
    );
    lemma_fundamental_div_mod_converse_mod(
        above16,
        0x100_0000,
        9 + 0x80 + c * 0x1_0000,
        a,
    );
    // type, bits 44..47, present bit and bits 48..56
    lemma_fundamental_div_mod_converse_div(lw, 0x100_0000_0000, 9 + 0x80 + c * 0x1_0000, below40);
    lemma_fundamental_div_mod_converse_mod(9 + 0x80 + c * 0x1_0000, 0x10, 8 + c * 0x1000, 9);
    lemma_fundamental_div_mod_converse_div(lw, 0x1000_0000_0000, 8 + c * 0x1000, below40 + 9
        * 0x100_0000_0000);
    lemma_fundamental_div_mod_converse_mod(8 + c * 0x1000, 0x8, 1 + c * 0x200, 0);
    lemma_fundamental_div_mod_converse_div(lw, 0x8000_0000_0000, 1 + c * 0x200, below40 + 9
        * 0x100_0000_0000);
    lemma_fundamental_div_mod_converse_mod(1 + c * 0x200, 0x2, c * 0x100, 1);
    lemma_fundamental_div_mod_converse_div(lw, 0x1_0000_0000_0000, c * 0x100, below40 + 9
        * 0x100_0000_0000 + 0x8000_0000_0000);
    lemma_fundamental_div_mod_converse_mod(c * 0x100, 0x100, c, 0);
    // base bits 24..32
    lemma_fundamental_div_mod_converse_div(lw, 0x100_0000_0000_0000, c, below40 + 9
        * 0x100_0000_0000 + 0x8000_0000_0000);
    lemma_small_mod(c as nat, 0x100);
    assert(span_len(0, 15) == 16);
    assert(span_len(16, 39) == 24);
    assert(span_len(40, 43) == 4);
    assert(span_len(44, 46) == 3);
    assert(span_len(47, 47) == 1);
    assert(span_len(48, 55) == 8);
    assert(span_len(56, 63) == 8);
}

/// A global descriptor table of eight 8-byte slots; slot 0 is the null
/// descriptor and the used slots come first.
#[derive(Clone, Copy, Debug)]
pub struct GlobalDescriptorTable {
    table: [u64; 8],
    len: usize,
}

impl View for GlobalDescriptorTable {
    type V = Seq<u64>;

    /// The used slots, in order.
    closed spec fn view(&self) -> Seq<u64> {
        self.table@.subrange(0, self.len as int)
    }
}

impl GlobalDescriptorTable {
    #[verifier::type_invariant]
    spec fn well_formed(self) -> bool {
        &&& 1 <= self.len <= GDT_SLOTS
        &&& self.table@[0] == 0
        &&& forall|i: int| self.len <= i < GDT_SLOTS ==> #[trigger] self.table@[i] == 0
    }

    /// Number of used slots, the null slot included.
    pub fn len(&self) -> (r: usize)
        ensures
            r == self@.len(),
            1 <= r <= GDT_SLOTS,
            self@[0] == 0,
    {
        proof {
            use_type_invariant(self);
        }
        self.len
    }

    /// A table holding only the null descriptor.
    pub fn new() -> (r: Self)
        ensures
            r@ == seq![0u64],
    {
        let r = GlobalDescriptorTable { table: [0u64;8], len: 1 };
        assert(r@ =~= seq![0u64]);
        r
    }

    /// Appends `value` and returns its slot index.
    fn push(&mut self, value: u64) -> (index: usize)
        requires
            old(self)@.len() < GDT_SLOTS,
        ensures
            final(self)@ == old(self)@.push(value),
            index == old(self)@.len(),
    {
        proof {
            use_type_invariant(&*self);
        }
        let index = self.len;
        self.len = index + 1;
        self.table[index] = value;
        assert(self@ =~= old(self)@.push(value));
        index
    }

    /// Appends `entry` and returns a selector for it; the table must have room
    /// for it.
    pub fn add_entry(&mut self, entry: Descriptor) -> (selector: SegmentSelector)
        requires
            old(self)@.len() + entry.words().len() <= GDT_SLOTS,
        ensures
            final(self)@ == old(self)@ + entry.words(),
            selector.0 == selector_bits(old(self)@.len() as u16, entry.selector_rpl()),
            selector.0 == old(self)@.len() * 8 + entry.selector_rpl().spec_value(),
            1 <= old(self)@.len() < final(self)@.len() <= GDT_SLOTS,
            final(self)@[0] == 0,
    {
        proof {
            use_type_invariant(&*self);
        }
        let index = match entry {
            Descriptor::UserSegment(value) => self.push(value),
            Descriptor::SystemSegment(value_low, value_high) => {
                let index = self.push(value_low);
                self.push(value_high);
                index
            },
        };
        let rpl = match entry {
            Descriptor::UserSegment(value) => {
                if value & DescriptorFlags::DPL_RING_3 != 0 {
                    PrivilegeLevel::Ring3
                } else {
                    PrivilegeLevel::Ring0
                }
            },
            Descriptor::SystemSegment(_, _) => PrivilegeLevel::Ring0,
        };
        assert(self@ =~= old(self)@ + entry.words());
        SegmentSelector::new(index as u16, rpl)
    }

    /// The operand of `lgdt` for this table placed at `base`.
    pub fn pointer(&self, base: VirtAddr) -> (r: DescriptorTablePointer)
        ensures
            r.base == base,
            r.limit == 8 * self@.len() - 1,
    {
        proof {
            use_type_invariant(self);
        }
        DescriptorTablePointer { base, limit: (8 * self.len - 1) as u16 }
    }

    /// All eight slots: the null descriptor, the other used ones, then zeros.
    pub fn table(&self) -> (r: &[u64; 8])
        ensures
            r@ == self@ + Seq::new((GDT_SLOTS - self@.len()) as nat, |i: int| 0u64),
            1 <= self@.len() <= GDT_SLOTS,
            r@[0] == 0,
    {
        proof {
            use_type_invariant(self);
        }
        assert(self.table@ =~= self@ + Seq::new((GDT_SLOTS - self@.len()) as nat, |i: int| 0u64));
        &self.table
    }

    /// The kernel's table: the null descriptor, the 64-bit kernel code segment
    /// and the task state segment at `tss_base`, with the selectors of the
    /// code segment (slot 1, ring 0) and of the task state segment (slot 2).
    pub fn kernel_table(tss_base: u64) -> (r: (Self, SegmentSelector, SegmentSelector))
        ensures
            r.0@ == seq![0u64, DescriptorFlags::KERNEL_CODE64] + Descriptor::tss_segment_spec(
                tss_base,
            ).words(),
            r.1.0 == 8,
            r.2.0 == 16,
    {
        let mut gdt = GlobalDescriptorTable::new();
        let code = gdt.add_entry(Descriptor::kernel_segment());
        let tss = gdt.add_entry(Descriptor::tss_segment(tss_base));
        assert(DescriptorFlags::KERNEL_CODE64 & DescriptorFlags::DPL_RING_3 == 0) by (bit_vector);
        assert(gdt@ =~= seq![0u64, DescriptorFlags::KERNEL_CODE64] + Descriptor::tss_segment_spec(
            tss_base,
        ).words());
        (gdt, code, tss)
    }
}

} // verus!
