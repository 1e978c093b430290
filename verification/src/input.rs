//! Input translation: structured key events become the byte sequences a
//! shell expects, and the plain mouse/input-configuration types consumed by
//! an embedding front end.

use vstd::prelude::*;

verus! {

/// A structured key event handed in by the embedding front end.  For
/// letter keys the lowercase latin letter on the key is carried.
#[derive(Clone, Copy, PartialEq, Eq, Structural, Debug)]
pub enum TerminalKey {
    Enter,
    Backspace,
    Tab,
    ArrowUp,
    ArrowDown,
    ArrowLeft,
    ArrowRight,
    Character(char),
}

/// The modifier keys held together with a key event.
#[derive(Clone, Copy, PartialEq, Eq, Structural, Debug)]
pub struct KeyModifiers {
    pub ctrl: bool,
    pub shift: bool,
    pub alt: bool,
}

/// The outbound byte sequence of a key event, or `None` when the key has no
/// terminal mapping.  Enter maps to CR; Backspace maps to the single byte
/// 0x08 (BS), the same byte the interpreter recognises; Tab to TAB; the
/// arrow keys to `CSI A/B/C/D`; Ctrl+C, Ctrl+D, Ctrl+Z and Ctrl+L to the C0
/// bytes 0x03, 0x04, 0x1a and 0x0c.
pub open spec fn key_bytes(key: TerminalKey, mods: KeyModifiers) -> Option<Seq<u8>> {
    match key {
        TerminalKey::Enter => Option::Some(seq![0x0du8]),
        TerminalKey::Backspace => Option::Some(seq![0x08u8]),
        TerminalKey::Tab => Option::Some(seq![0x09u8]),
        TerminalKey::ArrowUp => Option::Some(seq![0x1bu8, 0x5bu8, 0x41u8]),
        TerminalKey::ArrowDown => Option::Some(seq![0x1bu8, 0x5bu8, 0x42u8]),
        TerminalKey::ArrowRight => Option::Some(seq![0x1bu8, 0x5bu8, 0x43u8]),
        TerminalKey::ArrowLeft => Option::Some(seq![0x1bu8, 0x5bu8, 0x44u8]),
        TerminalKey::Character(c) => {
            if mods.ctrl && (c == 'c' || c == 'C') {
                Option::Some(seq![0x03u8])
            } else if mods.ctrl && (c == 'd' || c == 'D') {
                Option::Some(seq![0x04u8])
            } else if mods.ctrl && (c == 'z' || c == 'Z') {
                Option::Some(seq![0x1au8])
            } else if mods.ctrl && (c == 'l' || c == 'L') {
                Option::Some(seq![0x0cu8])
            } else {
                Option::None
            }
        },
    }
}

/// Translates one key event to the bytes to write to the child process:
/// exactly the mapping [`key_bytes`] gives, `None` for keys without one.
pub fn translate_key(key: TerminalKey, mods: KeyModifiers) -> (r: Option<Vec<u8>>)
    ensures
        match r {
            Option::Some(v) => key_bytes(key, mods) == Option::Some(v@),
            Option::None => key_bytes(key, mods) is None,
        },
{
    match key {
        TerminalKey::Enter => {
            let mut v: Vec<u8> = Vec::new();
            v.push(0x0d);
            proof {
                assert(v@ =~= seq![0x0du8]);
            }
            Some(v)
        },
        TerminalKey::Backspace => {
            let mut v: Vec<u8> = Vec::new();
            v.push(0x08);
            proof {
                assert(v@ =~= seq![0x08u8]);
            }
            Some(v)
        },
        TerminalKey::Tab => {
            let mut v: Vec<u8> = Vec::new();
            v.push(0x09);
            proof {
                assert(v@ =~= seq![0x09u8]);
            }
            Some(v)
        },
        TerminalKey::ArrowUp => {
            Some(csi_arrow(0x41))
        },
        TerminalKey::ArrowDown => {
            Some(csi_arrow(0x42))
        },
        TerminalKey::ArrowRight => {
            Some(csi_arrow(0x43))
        },
        TerminalKey::ArrowLeft => {
            Some(csi_arrow(0x44))
        },
        TerminalKey::Character(c) => {
            if mods.ctrl && (c == 'c' || c == 'C') {
                Some(control_byte(0x03))
            } else if mods.ctrl && (c == 'd' || c == 'D') {
                Some(control_byte(0x04))
            } else if mods.ctrl && (c == 'z' || c == 'Z') {
                Some(control_byte(0x1a))
            } else if mods.ctrl && (c == 'l' || c == 'L') {
                Some(control_byte(0x0c))
            } else {
                None
            }
        },
    }
}

fn csi_arrow(fin: u8) -> (v: Vec<u8>)
    ensures
        v@ == seq![0x1bu8, 0x5bu8, fin],
{
    let mut v: Vec<u8> = Vec::new();
    v.push(0x1b);
    v.push(0x5b);
    v.push(fin);
    proof {
        assert(v@ =~= seq![0x1bu8, 0x5bu8, fin]);
    }
    v
}

fn control_byte(b: u8) -> (v: Vec<u8>)
    ensures
        v@ == seq![b],
{
    let mut v: Vec<u8> = Vec::new();
    v.push(b);
    proof {
        assert(v@ =~= seq![b]);
    }
    v
}

/// A mouse event at the session boundary, in character-cell coordinates.
#[derive(Clone, Copy, PartialEq, Eq, Debug)]
pub struct MouseEvent {
    pub position: (u16, u16),
    pub event_type: MouseEventType,
}

/// The kind of a mouse event; `Scroll` carries the signed wheel delta.
#[derive(Clone, Copy, PartialEq, Eq, Structural, Debug)]
pub enum MouseEventType {
    LeftClick,
    RightClick,
    MiddleClick,
    Drag,
    Scroll(i8),
}

/// Which input gestures the embedding front end forwards.
#[derive(Clone, Copy, PartialEq, Eq, Structural, Debug)]
pub struct InputConfig {
    pub enable_zoom: bool,
    pub enable_pan: bool,
    pub axis_locked_pan: bool,
    pub zoom_with_pinch: bool,
    pub pan_with_scroll: bool,
    pub pan_with_drag: bool,
}

impl Default for InputConfig {
    /// Every gesture enabled.
    fn default() -> (c: Self)
        ensures
            c.enable_zoom,
            c.enable_pan,
            c.axis_locked_pan,
            c.zoom_with_pinch,
            c.pan_with_scroll,
            c.pan_with_drag,
    {
        InputConfig {
            enable_zoom: true,
            enable_pan: true,
            axis_locked_pan: true,
            zoom_with_pinch: true,
            pan_with_scroll: true,
            pan_with_drag: true,
        }
    }
}

} // verus!
