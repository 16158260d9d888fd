use fyos::gdt::{
    Descriptor, DescriptorFlags, GlobalDescriptorTable, TaskStateSegment, DOUBLE_FAULT_IST_INDEX,
    TSS_SIZE,
};
use fyos::interrupts::idt::{Entry, EntryOptions, InterruptDescriptorTable, IDT_SIZE};
use fyos::interrupts::{kernel_idt, InterruptIndex, KernelHandlers};
use fyos::x86_64::{PrivilegeLevel, SegmentSelector, VirtAddr};

#[test]
fn tss_descriptor_layout() {
    let base = 0x1122_3344_5566_7788u64;
    assert_eq!(
        Descriptor::tss_segment(base),
        Descriptor::SystemSegment(0x5500_8966_7788_0067, 0x1122_3344)
    );
    assert_eq!(
        Descriptor::tss_segment(0),
        Descriptor::SystemSegment(0x0000_8900_0000_0067, 0)
    );
}

#[test]
fn kernel_code_segment_flags() {
    assert_eq!(DescriptorFlags::KERNEL_CODE64, 0x0000_9100_0000_0000);
    assert_eq!(
        Descriptor::kernel_segment(),
        Descriptor::UserSegment(0x0000_9100_0000_0000)
    );
}

#[test]
fn gdt_add_entry_selectors() {
    let mut gdt = GlobalDescriptorTable::new();
    assert_eq!(gdt.len(), 1);
    let code = gdt.add_entry(Descriptor::kernel_segment());
    assert_eq!(code.0, 1 << 3);
    let tss = gdt.add_entry(Descriptor::tss_segment(0x1000));
    assert_eq!(tss.0, 2 << 3);
    assert_eq!(gdt.len(), 4);
    let user = gdt.add_entry(Descriptor::UserSegment(
        DescriptorFlags::COMMON | DescriptorFlags::DPL_RING_3,
    ));
    assert_eq!(user.0, 4 << 3 | 3);
    let ring1 = gdt.add_entry(Descriptor::UserSegment(
        DescriptorFlags::COMMON | (1 << 45),
    ));
    assert_eq!(ring1.0, 5 << 3 | 3);
    assert_eq!(gdt.len(), 6);
    assert_eq!(gdt.table()[4], DescriptorFlags::COMMON | DescriptorFlags::DPL_RING_3);
}

#[test]
fn gdt_fills_all_slots() {
    let mut gdt = GlobalDescriptorTable::new();
    for _ in 0..7 {
        gdt.add_entry(Descriptor::kernel_segment());
    }
    assert_eq!(gdt.len(), 8);
    let p = gdt.pointer(VirtAddr(0x5000));
    assert_eq!(p.limit, 63);
    assert_eq!(p.base, VirtAddr(0x5000));
}

#[test]
fn kernel_gdt_layout() {
    let (gdt, code, tss) = GlobalDescriptorTable::kernel_table(0xffff_8000_0012_3456);
    assert_eq!(code.0, 8);
    assert_eq!(tss.0, 16);
    assert_eq!(gdt.len(), 4);
    let t = gdt.table();
    assert_eq!(t[0], 0);
    assert_eq!(t[1], DescriptorFlags::KERNEL_CODE64);
    let Descriptor::SystemSegment(low, high) = Descriptor::tss_segment(0xffff_8000_0012_3456) else {
        panic!("not a system segment");
    };
    assert_eq!(t[2], low);
    assert_eq!(t[3], high);
    assert_eq!(high, 0xffff_8000);
    assert_eq!(gdt.pointer(VirtAddr(0)).limit, 31);
}

#[test]
fn tss_with_double_fault_stack() {
    let tss = TaskStateSegment::new();
    assert_eq!(tss.iomap_base, TSS_SIZE);
    assert!(tss.interrupt_stack_table.iter().all(|a| a.0 == 0));
    let tss = TaskStateSegment::with_double_fault_stack(VirtAddr(0x9000));
    assert_eq!(tss.interrupt_stack_table[DOUBLE_FAULT_IST_INDEX as usize], VirtAddr(0x9000));
    assert_eq!(tss.interrupt_stack_table[1], VirtAddr(0));
    assert_eq!(tss.iomap_base, 104);
}

#[test]
fn entry_options_bits() {
    let mut o = EntryOptions::minimal();
    assert_eq!(o.0, 0x0e00);
    o.set_present(true).set_privilege_level(3).disable_interrupts(false);
    assert_eq!(o.0, 0x8e00 | 0x6000 | 0x0100);
    o.set_present(false);
    assert_eq!(o.0, 0x0e00 | 0x6000 | 0x0100);
    o.disable_interrupts(true);
    assert_eq!(o.0, 0x0e00 | 0x6000);
    o.set_stack_index(0);
    assert_eq!(o.0 & 0x7, 1);
    o.set_stack_index(6);
    assert_eq!(o.0 & 0x7, 7);
}

#[test]
fn entry_keeps_the_handler_address() {
    let mut e = Entry::missing();
    assert_eq!(e.handler_addr(), 0);
    let cs = SegmentSelector::new(1, PrivilegeLevel::Ring0);
    let opts = e.set_handler_addr(0xffff_8000_dead_beef, cs);
    opts.set_stack_index(2);
    assert_eq!(e.handler_addr(), 0xffff_8000_dead_beef);
    assert_eq!(e.pointer_low, 0xbeef);
    assert_eq!(e.pointer_middle, 0xdead);
    assert_eq!(e.pointer_high, 0xffff_8000);
    assert_eq!(e.gdt_selector, cs);
    assert_eq!(e.options.0, 0x8e03);
}

#[test]
fn idt_index_reaches_the_named_entries() {
    let mut idt = InterruptDescriptorTable::new();
    let cs = SegmentSelector(8);
    idt.index_mut(3).set_handler_addr(0x1234, cs);
    assert_eq!(idt.breakpoint.handler_addr(), 0x1234);
    idt.index_mut(255).set_handler_addr(0x5678, cs);
    assert_eq!(idt.interrupts[223].handler_addr(), 0x5678);
    assert_eq!(idt.index(255).handler_addr(), 0x5678);
    assert_eq!(*idt.index(20), Entry::missing());
    let all = idt.entries();
    assert_eq!(all[3].handler_addr(), 0x1234);
    assert_eq!(all[255].handler_addr(), 0x5678);
    assert_eq!(all[8], idt.double_fault);
    assert_eq!(all[30], idt.security_exception);
    assert_eq!(InterruptDescriptorTable::pointer(VirtAddr(0x10)).limit, IDT_SIZE - 1);
}

#[test]
fn kernel_idt_layout() {
    let handlers = KernelHandlers {
        divide_error: 0x1000,
        breakpoint: 0x2000,
        invalid_opcode: 0x3000,
        double_fault: 0x4000,
        general_protection_fault: 0x5000,
        page_fault: 0x6000,
        timer: 0x7000,
        keyboard: 0x8000,
    };
    let cs = SegmentSelector(8);
    let idt = kernel_idt(handlers, cs);
    assert_eq!(idt.divide_error.handler_addr(), 0x1000);
    assert_eq!(idt.breakpoint.handler_addr(), 0x2000);
    assert_eq!(idt.invalid_opcode.handler_addr(), 0x3000);
    assert_eq!(idt.double_fault.handler_addr(), 0x4000);
    assert_eq!(idt.double_fault.options.0, 0x8e01);
    assert_eq!(idt.general_protection_fault.handler_addr(), 0x5000);
    assert_eq!(idt.page_fault.handler_addr(), 0x6000);
    assert_eq!(idt.index(InterruptIndex::Timer.as_u8() as usize).handler_addr(), 0x7000);
    assert_eq!(idt.index(InterruptIndex::Keyboard.as_u8() as usize).handler_addr(), 0x8000);
    assert_eq!(idt.index(33).options.0, 0x8e00);
    assert_eq!(idt.index(33).gdt_selector, cs);
    assert_eq!(*idt.index(34), Entry::missing());
    assert_eq!(idt.debug, Entry::missing());
}
