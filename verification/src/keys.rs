//! Virtual key codes and the merging of left/right modifier variants.

use vstd::prelude::*;

verus! {

/// A virtual key code as the platform reports it.
pub type VirtualKey = u16;

/// Either shift key.
pub const VK_SHIFT: VirtualKey = 0x10;

/// Either control key.
pub const VK_CONTROL: VirtualKey = 0x11;

/// Either alt key.
pub const VK_MENU: VirtualKey = 0x12;

/// Caps lock.
pub const VK_CAPITAL: VirtualKey = 0x14;

/// Escape.
pub const VK_ESCAPE: VirtualKey = 0x1B;

/// Left OS key; also the canonical identity of both OS keys.
pub const VK_LWIN: VirtualKey = 0x5B;

/// Right OS key.
pub const VK_RWIN: VirtualKey = 0x5C;

/// Left shift.
pub const VK_LSHIFT: VirtualKey = 0xA0;

/// Right shift.
pub const VK_RSHIFT: VirtualKey = 0xA1;

/// Left control.
pub const VK_LCONTROL: VirtualKey = 0xA2;

/// Right control.
pub const VK_RCONTROL: VirtualKey = 0xA3;

/// Left alt.
pub const VK_LMENU: VirtualKey = 0xA4;

/// Right alt.
pub const VK_RMENU: VirtualKey = 0xA5;

/// The grave accent / tilde key on a US layout.
pub const VK_OEM_3: VirtualKey = 0xC0;

// The letter keys share their code with the upper-case ASCII letter.
pub const VK_A: VirtualKey = 0x41;
pub const VK_B: VirtualKey = 0x42;
pub const VK_C: VirtualKey = 0x43;
pub const VK_D: VirtualKey = 0x44;
pub const VK_E: VirtualKey = 0x45;
pub const VK_F: VirtualKey = 0x46;
pub const VK_G: VirtualKey = 0x47;
pub const VK_H: VirtualKey = 0x48;
pub const VK_I: VirtualKey = 0x49;
pub const VK_J: VirtualKey = 0x4A;
pub const VK_K: VirtualKey = 0x4B;
pub const VK_L: VirtualKey = 0x4C;
pub const VK_M: VirtualKey = 0x4D;
pub const VK_N: VirtualKey = 0x4E;
pub const VK_O: VirtualKey = 0x4F;
pub const VK_P: VirtualKey = 0x50;
pub const VK_Q: VirtualKey = 0x51;
pub const VK_R: VirtualKey = 0x52;
pub const VK_S: VirtualKey = 0x53;
pub const VK_T: VirtualKey = 0x54;
pub const VK_U: VirtualKey = 0x55;
pub const VK_V: VirtualKey = 0x56;
pub const VK_W: VirtualKey = 0x57;
pub const VK_X: VirtualKey = 0x58;
pub const VK_Y: VirtualKey = 0x59;
pub const VK_Z: VirtualKey = 0x5A;

/// The canonical identity of a key: the left and right variants of shift,
/// control, alt and the OS key stand for one logical key each; every other
/// code stands for itself.
pub open spec fn canonical_key(key: VirtualKey) -> VirtualKey {
    if key == VK_LSHIFT || key == VK_RSHIFT {
        VK_SHIFT
    } else if key == VK_LCONTROL || key == VK_RCONTROL {
        VK_CONTROL
    } else if key == VK_LMENU || key == VK_RMENU {
        VK_MENU
    } else if key == VK_LWIN || key == VK_RWIN {
        VK_LWIN
    } else {
        key
    }
}

/// Merges the side of a modifier away.
pub fn normalize_key(key: VirtualKey) -> (canonical: VirtualKey)
    ensures
        canonical == canonical_key(key),
{
    if key == VK_LSHIFT || key == VK_RSHIFT {
        VK_SHIFT
    } else if key == VK_LCONTROL || key == VK_RCONTROL {
        VK_CONTROL
    } else if key == VK_LMENU || key == VK_RMENU {
        VK_MENU
    } else if key == VK_LWIN || key == VK_RWIN {
        VK_LWIN
    } else {
        key
    }
}

} // verus!
