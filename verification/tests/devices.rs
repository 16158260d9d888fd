use fyos::interrupts::keyboard::{decode_scancode, Key, KernelKeyboard};
use fyos::interrupts::{ErrorCode, InterruptIndex, PIC_1_OFFSET, PIC_2_OFFSET};
use fyos::lazy_static::{deref_step, drop_needs_value_drop, DerefStep, InitStage};
use fyos::pic::{ChainedPics, CMD_END_OF_INTERRUPT};
use fyos::port::{Port, PortByteWrite, PortGeneric};
use fyos::port::access::ReadOnly;
use fyos::x86_64::{PrivilegeLevel, SegmentSelector};
use fyos::QemuExitCode;

fn w(port: u16, value: u8) -> PortByteWrite {
    PortByteWrite { port, value }
}

#[test]
fn pic_handles_its_vectors() {
    let pics = ChainedPics::new(PIC_1_OFFSET, PIC_2_OFFSET);
    assert!(!pics.handles_interrupt(31));
    assert!(pics.handles_interrupt(32));
    assert!(pics.handles_interrupt(39));
    assert!(pics.handles_interrupt(40));
    assert!(pics.handles_interrupt(47));
    assert!(!pics.handles_interrupt(48));
}

#[test]
fn end_of_interrupt_goes_to_the_right_pics() {
    let pics = ChainedPics::new(32, 40);
    assert_eq!(
        pics.notify_end_of_interrupt(InterruptIndex::Timer.as_u8()),
        vec![w(0x20, CMD_END_OF_INTERRUPT)]
    );
    assert_eq!(
        pics.notify_end_of_interrupt(44),
        vec![w(0xa0, 0x20), w(0x20, 0x20)]
    );
    assert_eq!(pics.notify_end_of_interrupt(3), vec![]);
    assert_eq!(pics.notify_end_of_interrupt(48), vec![]);
}

#[test]
fn pic_initialization_sequence() {
    let pics = ChainedPics::new(32, 40);
    let wait = w(0x80, 0);
    assert_eq!(
        pics.initialize([0xb8, 0x8e]),
        vec![
            w(0x20, 0x11), wait, w(0xa0, 0x11), wait,
            w(0x21, 32), wait, w(0xa1, 40), wait,
            w(0x21, 4), wait, w(0xa1, 2), wait,
            w(0x21, 1), wait, w(0xa1, 1), wait,
            w(0x21, 0xb8), w(0xa1, 0x8e), wait,
        ]
    );
    assert_eq!(pics.disable(), vec![w(0x21, 0xff), w(0xa1, 0xff)]);
    assert_eq!(pics.write_masks(1, 2), vec![w(0x21, 1), w(0xa1, 2)]);
}

#[test]
fn ports_keep_their_number() {
    let p: Port<u8> = Port::new(0x60);
    assert_eq!(p.number(), 0x60);
    let q: PortGeneric<u32, ReadOnly> = PortGeneric::new(0xcf8);
    assert_eq!(q.number(), 0xcf8);
}

#[test]
fn segment_selectors() {
    assert_eq!(SegmentSelector::new(1, PrivilegeLevel::Ring0).0, 8);
    assert_eq!(SegmentSelector::new(2, PrivilegeLevel::Ring3).0, 19);
    assert_eq!(SegmentSelector::new(0x2001, PrivilegeLevel::Ring1).0, 9);
    assert_eq!(SegmentSelector::null().0, 0);
    assert_eq!(PrivilegeLevel::Ring2.value(), 2);
}

#[test]
fn interrupt_vectors_and_codes() {
    assert_eq!(InterruptIndex::Timer.as_u8(), 32);
    assert_eq!(InterruptIndex::Keyboard.as_u8(), 33);
    assert_eq!(PIC_2_OFFSET, 40);
    assert_eq!(QemuExitCode::Success.code(), 0x10);
    assert_eq!(QemuExitCode::Failed.code(), 0x11);
    assert_eq!(ErrorCode(0x18).0, 0x18);
}

#[test]
fn lazy_init_decisions() {
    assert_eq!(deref_step(Ok(InitStage::Uninit)), DerefStep::Initialize);
    assert_eq!(deref_step(Err(InitStage::Initing)), DerefStep::Wait);
    assert_eq!(deref_step(Err(InitStage::Inited)), DerefStep::Read);
    assert!(!drop_needs_value_drop(InitStage::Uninit));
    assert!(!drop_needs_value_drop(InitStage::Initing));
    assert!(drop_needs_value_drop(InitStage::Inited));
}

#[test]
fn keyboard_decodes_a_key_press() {
    let mut keyboard = KernelKeyboard::new();
    // Scancode set 1: 0x1e is the A key pressed, 0x9e the A key released.
    assert!(matches!(decode_scancode(&mut keyboard, 0x1e), Some(Key::Unicode('a'))));
    assert!(decode_scancode(&mut keyboard, 0x9e).is_none());
    // Shift held: the same key gives a capital letter.
    assert!(decode_scancode(&mut keyboard, 0x2a).is_none());
    assert!(matches!(decode_scancode(&mut keyboard, 0x1e), Some(Key::Unicode('A'))));
}

#[test]
fn keyboard_release_and_prefix_bytes_give_no_key() {
    let mut keyboard = KernelKeyboard::new();
    assert!(decode_scancode(&mut keyboard, 0xe0).is_none());
    assert!(decode_scancode(&mut keyboard, 0xc8).is_none());
    assert!(decode_scancode(&mut keyboard, 0x9e).is_none());
    assert!(decode_scancode(&mut keyboard, 0xff).is_none());
    assert!(matches!(decode_scancode(&mut keyboard, 0x30), Some(Key::Unicode('b'))));
}
