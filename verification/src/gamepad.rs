//! The input snapshot the core consumes: one button bitmask per port
//! (0..3). Device enumeration and polling live outside the core; whatever
//! collaborator owns the physical devices writes the masks, and the guest
//! reads them back through `get_state`.

use vstd::prelude::*;

verus! {

/// D-pad up.
pub const PAD_UP: u16 = 1;

/// D-pad down.
pub const PAD_DOWN: u16 = 2;

/// D-pad left.
pub const PAD_LEFT: u16 = 4;

/// D-pad right.
pub const PAD_RIGHT: u16 = 8;

/// North face button.
pub const PAD_NORTH: u16 = 16;

/// South face button.
pub const PAD_SOUTH: u16 = 32;

/// East face button.
pub const PAD_EAST: u16 = 64;

/// West face button.
pub const PAD_WEST: u16 = 128;

/// Left shoulder button.
pub const PAD_LEFT_BUMPER: u16 = 256;

/// Right shoulder button.
pub const PAD_RIGHT_BUMPER: u16 = 512;

/// Start button.
pub const PAD_START: u16 = 1024;

/// Select button.
pub const PAD_SELECT: u16 = 2048;

/// The port has no assigned physical device; mutually exclusive with every
/// gameplay bit.
pub const PAD_DISCONNECTED: u16 = 4096;

/// One bitmask per port. A well-formed mask uses only the thirteen assigned
/// bits, and the disconnected bit never mixes with gameplay bits.
#[derive(Clone, Copy, Debug)]
pub struct GamepadPorts {
    pub ports: [u16; 4],
}

/// The mask uses only assigned bits, and the disconnected bit stands alone.
pub open spec fn mask_wf(bits: u16) -> bool {
    bits < 8192 && (bits == PAD_DISCONNECTED || bits < 4096)
}

impl GamepadPorts {
    /// Every port holds a well-formed mask.
    pub open spec fn wf(self) -> bool {
        forall|p: int| 0 <= p < 4 ==> mask_wf(#[trigger] self.ports[p])
    }

    /// All four ports start disconnected.
    pub fn new() -> (r: GamepadPorts)
        ensures
            r.wf(),
            forall|p: int| 0 <= p < 4 ==> #[trigger] r.ports[p] == PAD_DISCONNECTED,
    {
        GamepadPorts { ports: [PAD_DISCONNECTED; 4] }
    }

    /// Store a fresh snapshot for one port; the port index is masked into
    /// range.
    pub fn set_port(&mut self, port: u32, bits: u16)
        requires
            mask_wf(bits),
        ensures
            final(self).ports@ == old(self).ports@.update((port & 3) as int, bits),
            old(self).wf() ==> final(self).wf(),
    {
        proof {
            assert(port & 3 < 4) by (bit_vector);
        }
        self.ports[(port & 3) as usize] = bits;
    }
}

/// Read the button bitmask of one port; the port index is masked into
/// range.
pub fn get_state(ports: &GamepadPorts, gamepad_idx: u32) -> (r: u32)
    ensures
        r == ports.ports[(gamepad_idx & 3) as int] as u32,
{
    proof {
        assert(gamepad_idx & 3 < 4) by (bit_vector);
    }
    ports.ports[(gamepad_idx & 3) as usize] as u32
}

} // verus!
