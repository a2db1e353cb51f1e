//! Byte classes that end a run the parser can skip over.
use vstd::prelude::*;

verus! {

/// Whether `byte` ends a control sequence: a final byte (`0x40..=0x7E`),
/// ESC, CAN or SUB.
pub open spec fn ends_csi(byte: u8) -> bool {
    (0x40 <= byte && byte <= 0x7e) || byte == 0x1b || byte == 0x18 || byte == 0x1a
}

/// Whether `byte` interrupts text in the ground state: ESC, DEL and the C0
/// controls other than TAB, LF and CR.
pub open spec fn ends_ground(byte: u8) -> bool {
    byte == 0x1b || byte <= 0x08 || (0x0b <= byte && byte <= 0x0c) || (0x0e <= byte && byte <= 0x1f)
        || byte == 0x7f
}

/// Whether `byte` ends a control sequence: a final byte (`0x40..=0x7E`),
/// ESC, CAN or SUB.
pub fn is_end_of_csi(byte: u8) -> (r: bool)
    ensures
        r == ends_csi(byte),
{
    (0x40 <= byte && byte <= 0x7e) || byte == 0x1b || byte == 0x18 || byte == 0x1a
}

/// Whether `byte` interrupts text in the ground state: ESC, DEL and the C0
/// controls other than TAB, LF and CR.
pub fn is_end_of_ground(byte: u8) -> (r: bool)
    ensures
        r == ends_ground(byte),
{
    byte == 0x1b || byte <= 0x08 || (0x0b <= byte && byte <= 0x0c) || (0x0e <= byte && byte <= 0x1f)
        || byte == 0x7f
}

} // verus!
