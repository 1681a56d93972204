//! Keys, as the host reports them.

use vstd::prelude::*;

verus! {

/// Modifier keys held down.
#[derive(Clone, Copy, PartialEq, Eq, Structural, Debug)]
pub struct KeyMods {
    pub ctrl: bool,
    pub shift: bool,
    pub alt: bool,
}

/// A key that went down.
#[derive(Clone, Copy, Debug)]
pub struct KeyEventData {
    pub key_code: u32,
    pub mods: KeyMods,
}

/// Key code of the backspace key.
pub const VK_BACK: u32 = 0x08;

/// Key code of the tabulator key.
pub const VK_TAB: u32 = 0x09;

/// Key code of the return key.
pub const VK_RETURN: u32 = 0x0D;

/// Key code of the escape key.
pub const VK_ESCAPE: u32 = 0x1B;

/// Key code of the space bar.
pub const VK_SPACE: u32 = 0x20;

/// Key code of the end key.
pub const VK_END: u32 = 0x23;

/// Key code of the home key.
pub const VK_HOME: u32 = 0x24;

/// Key code of the arrow left.
pub const VK_LEFT: u32 = 0x25;

/// Key code of the arrow right.
pub const VK_RIGHT: u32 = 0x27;

/// Key code of the arrow up.
pub const VK_UP: u32 = 0x26;

/// Key code of the arrow down.
pub const VK_DOWN: u32 = 0x28;

/// Key code of the digit 1.
pub const VK_1: u32 = 0x31;

/// Key code of the digit 9.
pub const VK_9: u32 = 0x39;

/// Key code of the letter A.
pub const VK_A: u32 = 0x41;

/// Key code of the letter Z.
pub const VK_Z: u32 = 0x5A;

/// Key code of the quote key.
pub const VK_QUOTE: u32 = 0xDE;

/// Key code of the backtick key.
pub const VK_BACKTICK: u32 = 0xC0;

/// Letters and digits have the codes of their capitals and digits, and so has the space bar;
/// the keys that stand for control characters have theirs.
pub proof fn keys_have_the_codes_of_their_characters()
    ensures
        VK_1 == '1' as u32,
        VK_9 == '9' as u32,
        VK_A == 'A' as u32,
        VK_Z == 'Z' as u32,
        VK_SPACE == ' ' as u32,
        VK_BACK == 8,
        VK_TAB == 9,
        VK_RETURN == 13,
        VK_ESCAPE == 27,
{
}

/// The arrows and the keys that lead to the ends have codes that follow each other.
pub proof fn cursor_keys_follow_each_other()
    ensures
        VK_END == 0x23,
        VK_HOME == VK_END + 1,
        VK_LEFT == VK_END + 2,
        VK_UP == VK_END + 3,
        VK_RIGHT == VK_END + 4,
        VK_DOWN == VK_END + 5,
        VK_QUOTE == 0xDE,
        VK_BACKTICK == 0xC0,
{
}

} // verus!
