//! Plain x86_64 data structures: privilege levels, segment selectors,
//! addresses and the frames the CPU pushes on an interrupt.
use vstd::prelude::*;

verus! {

/// The four privilege rings of x86.
#[derive(Clone, Copy, PartialEq, Eq, Debug)]
pub enum PrivilegeLevel {
    Ring0,
    Ring1,
    Ring2,
    Ring3,
}

impl PrivilegeLevel {
    /// The ring number.
    pub open spec fn spec_value(&self) -> u16 {
        match self {
            PrivilegeLevel::Ring0 => 0,
            PrivilegeLevel::Ring1 => 1,
            PrivilegeLevel::Ring2 => 2,
            PrivilegeLevel::Ring3 => 3,
        }
    }

    /// The ring number.
    #[verifier::when_used_as_spec(spec_value)]
    pub fn value(&self) -> (r: u16)
        ensures
            r == self.spec_value(),
    {
        match self {
            PrivilegeLevel::Ring0 => 0,
            PrivilegeLevel::Ring1 => 1,
            PrivilegeLevel::Ring2 => 2,
            PrivilegeLevel::Ring3 => 3,
        }
    }
}

/// A segment selector: a descriptor table index and a requested privilege
/// level, packed as `index << 3 | rpl`.
#[derive(Clone, Copy, PartialEq, Eq, Debug)]
pub struct SegmentSelector(pub u16);

/// The raw value of the selector for `index` and `rpl`: the index fills bits
/// 3 and up (the bits of `index` that do not fit are dropped), the ring bits
/// 0..=1.
pub open spec fn selector_bits(index: u16, rpl: PrivilegeLevel) -> u16 {
    (((index as int * 8) % 0x1_0000) + rpl.spec_value()) as u16
}

impl SegmentSelector {
    /// The selector with index 0 and ring 0.
    pub fn null() -> (r: Self)
        ensures
            r.0 == 0,
    {
        SegmentSelector(0)
    }

    /// The selector for descriptor `index` with requested privilege level `rpl`.
    pub fn new(index: u16, rpl: PrivilegeLevel) -> (r: Self)
        ensures
            r.0 == selector_bits(index, rpl),
    {
        let level = rpl.value();
        let r = index << 3u16 | level;
        assert(r == ((index as int * 8) % 0x1_0000) + level) by (bit_vector)
            requires
                r == index << 3u16 | level,
                level < 4,
        ;
        SegmentSelector(r)
    }
}

/// A virtual address.
#[derive(Clone, Copy, PartialEq, Eq, Debug)]
pub struct VirtAddr(pub u64);

impl VirtAddr {
    /// The address 0.
    pub fn zero() -> (r: Self)
        ensures
            r.0 == 0,
    {
        VirtAddr(0)
    }
}

/// The operand of `lgdt` and `lidt`: the table's last byte offset and its base.
#[derive(Clone, Copy, PartialEq, Eq, Debug)]
pub struct DescriptorTablePointer {
    pub limit: u16,
    pub base: VirtAddr,
}

/// What the CPU pushes on the stack when it enters an interrupt handler.
#[derive(Clone, Copy, PartialEq, Eq, Debug)]
pub struct InterruptStackFrameValue {
    pub instruction_pointer: VirtAddr,
    pub code_segment: u64,
    pub cpu_flags: u64,
    pub stack_pointer: VirtAddr,
    pub stack_segment: u64,
}

/// Read-only access to the interrupt stack frame.
#[derive(Debug)]
pub struct InterruptStackFrame {
    value: InterruptStackFrameValue,
}

impl InterruptStackFrame {
    /// The frame holding `value`.
    pub fn new(value: InterruptStackFrameValue) -> (r: Self)
        ensures
            r@ == value,
    {
        InterruptStackFrame { value }
    }

    pub closed spec fn view(&self) -> InterruptStackFrameValue {
        self.value
    }

    /// The values of the frame.
    pub fn value(&self) -> (r: &InterruptStackFrameValue)
        ensures
            *r == self@,
    {
        &self.value
    }
}

} // verus!
