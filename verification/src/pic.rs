//! The chained pair of 8259 programmable interrupt controllers. The library
//! decides which bytes go to which port, in which order; the caller writes
//! them.
use vstd::prelude::*;
use crate::port::{Port, PortByteWrite};

verus! {

/// Command sent to begin PIC initialization.
pub const CMD_INIT: u8 = 0x11;

/// Command sent to acknowledge an interrupt.
pub const CMD_END_OF_INTERRUPT: u8 = 0x20;

/// The mode in which we want to run our PICs.
pub const MODE_8086: u8 = 0x01;

/// Command and data ports of the primary PIC.
pub const PRIMARY_COMMAND_PORT: u16 = 0x20;
pub const PRIMARY_DATA_PORT: u16 = 0x21;

/// Command and data ports of the secondary PIC.
pub const SECONDARY_COMMAND_PORT: u16 = 0xa0;
pub const SECONDARY_DATA_PORT: u16 = 0xa1;

/// An unused port; writing to it gives the PICs time to act on a command.
pub const WAIT_PORT: u16 = 0x80;

/// Whether the PIC whose vectors start at `offset` handles vector `interrupt_id`.
pub open spec fn pic_handles(offset: u8, interrupt_id: u8) -> bool {
    offset <= interrupt_id < offset + 8
}

/// Whether asking the PIC at `offset` about `interrupt_id` would overflow
/// `u8` (`offset + 8` is computed once `offset <= interrupt_id`).
pub open spec fn pic_check_overflows(offset: u8, interrupt_id: u8) -> bool {
    offset <= interrupt_id && offset > 247
}

/// One byte for `port`.
pub open spec fn write_to(port: u16, value: u8) -> PortByteWrite {
    PortByteWrite { port, value }
}

struct Pic {
    offset: u8,
    cmd: Port<u8>,
    data: Port<u8>,
}

impl Pic {
    /// Acknowledges the current interrupt.
    fn end_of_interrupt(&self) -> (r: PortByteWrite)
        ensures
            r == write_to(self.cmd@, CMD_END_OF_INTERRUPT),
    {
        PortByteWrite { port: self.cmd.number(), value: CMD_END_OF_INTERRUPT }
    }

    /// Sets the mask of disabled interrupt lines.
    fn write_mask(&self, mask: u8) -> (r: PortByteWrite)
        ensures
            r == write_to(self.data@, mask),
    {
        PortByteWrite { port: self.data.number(), value: mask }
    }

    fn handles_interrupt(&self, interrupt_id: u8) -> (r: bool)
        requires
            !pic_check_overflows(self.offset, interrupt_id),
        ensures
            r == pic_handles(self.offset, interrupt_id),
    {
        self.offset <= interrupt_id && interrupt_id < self.offset + 8
    }
}

/// The primary PIC and the secondary one chained to it.
pub struct ChainedPics {
    pics: [Pic; 2],
}

impl View for ChainedPics {
    type V = (u8, u8);

    /// The vector offsets of the primary and the secondary PIC.
    closed spec fn view(&self) -> (u8, u8) {
        (self.pics[0].offset, self.pics[1].offset)
    }
}

impl ChainedPics {
    #[verifier::type_invariant]
    spec fn wired(self) -> bool {
        &&& self.pics[0].cmd@ == PRIMARY_COMMAND_PORT
        &&& self.pics[0].data@ == PRIMARY_DATA_PORT
        &&& self.pics[1].cmd@ == SECONDARY_COMMAND_PORT
        &&& self.pics[1].data@ == SECONDARY_DATA_PORT
    }

    /// The pair with vectors starting at `offset1` and `offset2`. The ranges
    /// are meant not to overlap each other nor the CPU exceptions; nothing
    /// checks that.
    pub fn new(offset1: u8, offset2: u8) -> (r: Self)
        ensures
            r@ == (offset1, offset2),
    {
        ChainedPics {
            pics: [
                Pic {
                    offset: offset1,
                    cmd: Port::new(PRIMARY_COMMAND_PORT),
                    data: Port::new(PRIMARY_DATA_PORT),
                },
                Pic {
                    offset: offset2,
                    cmd: Port::new(SECONDARY_COMMAND_PORT),
                    data: Port::new(SECONDARY_DATA_PORT),
                },
            ],
        }
    }

    /// Writes that set the masks of the primary and the secondary PIC.
    pub fn write_masks(&self, mask1: u8, mask2: u8) -> (r: Vec<PortByteWrite>)
        ensures
            r@ == seq![write_to(PRIMARY_DATA_PORT, mask1), write_to(SECONDARY_DATA_PORT, mask2)],
    {
        proof {
            use_type_invariant(self);
        }
        let mut r = Vec::new();
        r.push(self.pics[0].write_mask(mask1));
        r.push(self.pics[1].write_mask(mask2));
        r
    }

    /// Whether one of the two PICs handles vector `interrupt_id`. A PIC that
    /// is asked must not start above 247 and at or below the vector.
    pub fn handles_interrupt(&self, interrupt_id: u8) -> (r: bool)
        requires
            !pic_check_overflows(self@.0, interrupt_id),
            pic_handles(self@.0, interrupt_id) || !pic_check_overflows(self@.1, interrupt_id),
        ensures
            r == (pic_handles(self@.0, interrupt_id) || pic_handles(self@.1, interrupt_id)),
    {
        self.pics[0].handles_interrupt(interrupt_id) || self.pics[1].handles_interrupt(
            interrupt_id,
        )
    }

    /// Writes that disable every interrupt line of both PICs.
    pub fn disable(&self) -> (r: Vec<PortByteWrite>)
        ensures
            r@ == seq![write_to(PRIMARY_DATA_PORT, 0xff), write_to(SECONDARY_DATA_PORT, 0xff)],
    {
        self.write_masks(u8::MAX, u8::MAX)
    }

    /// Writes that acknowledge vector `interrupt_id`: a vector of the
    /// secondary PIC is acknowledged to the secondary and then to the primary
    /// one, a vector of the primary PIC to the primary one alone, any other
    /// vector to neither.
    pub fn notify_end_of_interrupt(&self, interrupt_id: u8) -> (r: Vec<PortByteWrite>)
        requires
            !pic_check_overflows(self@.0, interrupt_id),
            !pic_check_overflows(self@.1, interrupt_id),
        ensures
            r@ == if pic_handles(self@.0, interrupt_id) || pic_handles(self@.1, interrupt_id) {
                if pic_handles(self@.1, interrupt_id) {
                    seq![
                        write_to(SECONDARY_COMMAND_PORT, CMD_END_OF_INTERRUPT),
                        write_to(PRIMARY_COMMAND_PORT, CMD_END_OF_INTERRUPT),
                    ]
                } else {
                    seq![write_to(PRIMARY_COMMAND_PORT, CMD_END_OF_INTERRUPT)]
                }
            } else {
                Seq::<PortByteWrite>::empty()
            },
    {
        proof {
            use_type_invariant(self);
        }
        let mut r = Vec::new();
        if self.handles_interrupt(interrupt_id) {
            if self.pics[1].handles_interrupt(interrupt_id) {
                r.push(self.pics[1].end_of_interrupt());
            }
            r.push(self.pics[0].end_of_interrupt());
        }
        r
    }

    /// Writes that initialize both PICs, each command followed by a write to
    /// the wait port: the start command, the vector offsets, the chaining
    /// (secondary on line 2 of the primary), 8086 mode, and finally the masks
    /// `saved_masks` read from the data ports before.
    pub fn initialize(&self, saved_masks: [u8; 2]) -> (r: Vec<PortByteWrite>)
        ensures
            r@ == seq![
                write_to(PRIMARY_COMMAND_PORT, CMD_INIT),
                write_to(WAIT_PORT, 0),
                write_to(SECONDARY_COMMAND_PORT, CMD_INIT),
                write_to(WAIT_PORT, 0),
                write_to(PRIMARY_DATA_PORT, self@.0),
                write_to(WAIT_PORT, 0),
                write_to(SECONDARY_DATA_PORT, self@.1),
                write_to(WAIT_PORT, 0),
                write_to(PRIMARY_DATA_PORT, 4),
                write_to(WAIT_PORT, 0),
                write_to(SECONDARY_DATA_PORT, 2),
                write_to(WAIT_PORT, 0),
                write_to(PRIMARY_DATA_PORT, MODE_8086),
                write_to(WAIT_PORT, 0),
                write_to(SECONDARY_DATA_PORT, MODE_8086),
                write_to(WAIT_PORT, 0),
                write_to(PRIMARY_DATA_PORT, saved_masks[0]),
                write_to(SECONDARY_DATA_PORT, saved_masks[1]),
                write_to(WAIT_PORT, 0),
            ],
    {
        proof {
            use_type_invariant(self);
        }
        let wait = PortByteWrite { port: WAIT_PORT, value: 0 };
        let primary = &self.pics[0];
        let secondary = &self.pics[1];
        let mut r = Vec::new();
        // Tell each PIC that a three-byte initialization sequence follows on
        // its data port.
        r.push(PortByteWrite { port: primary.cmd.number(), value: CMD_INIT });
        r.push(wait);
        r.push(PortByteWrite { port: secondary.cmd.number(), value: CMD_INIT });
        r.push(wait);
        // Byte 1: the base offsets.
        r.push(PortByteWrite { port: primary.data.number(), value: primary.offset });
        r.push(wait);
        r.push(PortByteWrite { port: secondary.data.number(), value: secondary.offset });
        r.push(wait);
        // Byte 2: chaining between the primary and the secondary PIC.
        r.push(PortByteWrite { port: primary.data.number(), value: 4 });
        r.push(wait);
        r.push(PortByteWrite { port: secondary.data.number(), value: 2 });
        r.push(wait);
        // Byte 3: the mode.
        r.push(PortByteWrite { port: primary.data.number(), value: MODE_8086 });
        r.push(wait);
        r.push(PortByteWrite { port: secondary.data.number(), value: MODE_8086 });
        r.push(wait);
        let masks = self.write_masks(saved_masks[0], saved_masks[1]);
        r.push(masks[0]);
        r.push(masks[1]);
        r.push(wait);
        assert(r@ =~= seq![
            write_to(PRIMARY_COMMAND_PORT, CMD_INIT),
            write_to(WAIT_PORT, 0),
            write_to(SECONDARY_COMMAND_PORT, CMD_INIT),
            write_to(WAIT_PORT, 0),
            write_to(PRIMARY_DATA_PORT, self@.0),
            write_to(WAIT_PORT, 0),
            write_to(SECONDARY_DATA_PORT, self@.1),
            write_to(WAIT_PORT, 0),
            write_to(PRIMARY_DATA_PORT, 4),
            write_to(WAIT_PORT, 0),
            write_to(SECONDARY_DATA_PORT, 2),
            write_to(WAIT_PORT, 0),
            write_to(PRIMARY_DATA_PORT, MODE_8086),
            write_to(WAIT_PORT, 0),
            write_to(SECONDARY_DATA_PORT, MODE_8086),
            write_to(WAIT_PORT, 0),
            write_to(PRIMARY_DATA_PORT, saved_masks[0]),
            write_to(SECONDARY_DATA_PORT, saved_masks[1]),
            write_to(WAIT_PORT, 0),
        ]);
        r
    }
}

} // verus!
