//! Numbers of key symbols.

use vstd::prelude::*;

verus! {

pub const KEY_NO_SYMBOL: u32 = 0;

pub const KEY_SPACE: u32 = 0x20;

pub const KEY_PLUS: u32 = 0x2b;

pub const KEY_MINUS: u32 = 0x2d;

pub const KEY_0: u32 = 0x30;

pub const KEY_EQUAL: u32 = 0x3d;

pub const KEY_AT: u32 = 0x40;

pub const KEY_UPPER_A: u32 = 0x41;

pub const KEY_UPPER_Z: u32 = 0x5a;

pub const KEY_BRACKETLEFT: u32 = 0x5b;

pub const KEY_BACKSLASH: u32 = 0x5c;

pub const KEY_BRACKETRIGHT: u32 = 0x5d;

pub const KEY_ASCIICIRCUM: u32 = 0x5e;

pub const KEY_UNDERSCORE: u32 = 0x5f;

pub const KEY_A: u32 = 0x61;

pub const KEY_Z: u32 = 0x7a;

pub const KEY_ISO_LEFT_TAB: u32 = 0xfe20;

pub const KEY_BACKSPACE: u32 = 0xff08;

pub const KEY_TAB: u32 = 0xff09;

pub const KEY_RETURN: u32 = 0xff0d;

pub const KEY_ESCAPE: u32 = 0xff1b;

pub const KEY_HOME: u32 = 0xff50;

pub const KEY_LEFT: u32 = 0xff51;

pub const KEY_UP: u32 = 0xff52;

pub const KEY_RIGHT: u32 = 0xff53;

pub const KEY_DOWN: u32 = 0xff54;

pub const KEY_PAGE_UP: u32 = 0xff55;

pub const KEY_PAGE_DOWN: u32 = 0xff56;

pub const KEY_END: u32 = 0xff57;

pub const KEY_INSERT: u32 = 0xff63;

pub const KEY_KP_ENTER: u32 = 0xff8d;

pub const KEY_KP_PAGE_UP: u32 = 0xff9a;

pub const KEY_KP_PAGE_DOWN: u32 = 0xff9b;

pub const KEY_F1: u32 = 0xffbe;

pub const KEY_F2: u32 = 0xffbf;

pub const KEY_F3: u32 = 0xffc0;

pub const KEY_F4: u32 = 0xffc1;

pub const KEY_F5: u32 = 0xffc2;

pub const KEY_F6: u32 = 0xffc3;

pub const KEY_F7: u32 = 0xffc4;

pub const KEY_F8: u32 = 0xffc5;

pub const KEY_F9: u32 = 0xffc6;

pub const KEY_F10: u32 = 0xffc7;

pub const KEY_F11: u32 = 0xffc8;

pub const KEY_F12: u32 = 0xffc9;

pub const KEY_F13: u32 = 0xffca;

pub const KEY_F35: u32 = 0xffe0;

pub const KEY_DELETE: u32 = 0xffff;

} // verus!
