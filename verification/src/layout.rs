//! Classification of the symbols that the keyboard layout reports for a key.
//!
//! The layout engine itself (the compiled keymap and its lock and level state)
//! lives outside this library. For every key transition the library says what
//! to feed the engine (`KeyUpdate`) and takes back what the engine reported
//! about the symbol now bound to the key (`KeysymInfo`).

use crate::event::{event_press_state, press_state_of, InputEvent, KeyPressState, EV_KEY};
use vstd::prelude::*;

verus! {

/// Offset between a device's scancodes and the layout's keycodes.
pub const EVDEV_OFFSET: u32 = 8;

pub const XKB_KEY_BACKSPACE: u32 = 0xff08;

pub const XKB_KEY_ESCAPE: u32 = 0xff1b;

pub const XKB_KEY_DELETE: u32 = 0xffff;

pub const XKB_KEY_SHIFT_L: u32 = 0xffe1;

pub const XKB_KEY_SHIFT_R: u32 = 0xffe2;

pub const XKB_KEY_CONTROL_L: u32 = 0xffe3;

pub const XKB_KEY_CONTROL_R: u32 = 0xffe4;

pub const XKB_KEY_ALT_L: u32 = 0xffe9;

pub const XKB_KEY_ALT_R: u32 = 0xffea;

pub const XKB_KEY_SUPER_L: u32 = 0xffeb;

pub const XKB_KEY_SUPER_R: u32 = 0xffec;

/// What a key transition resolves to: one of the four modifiers, or a symbol
/// with its display text.
#[derive(Clone, Debug, PartialEq, Eq)]
pub enum KeyPress {
    Ctrl,
    Alt,
    Shift,
    Super,
    Other(String),
}

/// Mathematical value of a `KeyPress`.
pub ghost enum KeyPressView {
    Ctrl,
    Alt,
    Shift,
    Super,
    Other(Seq<char>),
}

impl View for KeyPress {
    type V = KeyPressView;

    open spec fn view(&self) -> KeyPressView {
        match self {
            KeyPress::Ctrl => KeyPressView::Ctrl,
            KeyPress::Alt => KeyPressView::Alt,
            KeyPress::Shift => KeyPressView::Shift,
            KeyPress::Super => KeyPressView::Super,
            KeyPress::Other(text) => KeyPressView::Other(text@),
        }
    }
}

/// The transition to feed the layout engine: a keycode of the layout and the
/// direction of the key.
#[derive(Clone, Copy, Debug, PartialEq, Eq, Structural)]
pub struct KeyUpdate {
    pub keycode: u32,
    pub direction: KeyPressState,
}

/// What the layout engine reports about the symbol bound to a key: the symbol,
/// its printable text and its canonical name, each of the two where it has one.
#[derive(Clone, Debug, PartialEq, Eq)]
pub struct KeysymInfo {
    pub sym: u32,
    pub utf8: Option<String>,
    pub name: Option<String>,
}

/// Mathematical value of a `KeysymInfo`.
pub ghost struct KeysymInfoView {
    pub sym: u32,
    pub utf8: Option<Seq<char>>,
    pub name: Option<Seq<char>>,
}

/// The characters of an optional string.
pub open spec fn text_of(text: Option<String>) -> Option<Seq<char>> {
    match text {
        Some(t) => Some(t@),
        None => None,
    }
}

impl View for KeysymInfo {
    type V = KeysymInfoView;

    open spec fn view(&self) -> KeysymInfoView {
        KeysymInfoView { sym: self.sym, utf8: text_of(self.utf8), name: text_of(self.name) }
    }
}

/// The layout's keycode for a device's scancode.
pub fn evdev_code_to_xkb_code(code: u16) -> (keycode: u32)
    ensures
        keycode == code + EVDEV_OFFSET,
{
    code as u32 + EVDEV_OFFSET
}

/// What to feed the layout engine for a record: the transition of its key,
/// for a key record whose value is a press or a release, and nothing for any
/// other record.
pub open spec fn key_update_of(event: InputEvent) -> Option<KeyUpdate> {
    if event.type_ == EV_KEY {
        match press_state_of(event.value) {
            Some(direction) => Some(
                KeyUpdate { keycode: (event.code + EVDEV_OFFSET) as u32, direction },
            ),
            None => None,
        }
    } else {
        None
    }
}

/// Decides what to feed the layout engine for a record.
pub fn key_update(event: &InputEvent) -> (update: Option<KeyUpdate>)
    ensures
        update == key_update_of(*event),
{
    if !event.is_key_event() {
        return None;
    }
    match event_press_state(event) {
        Some(direction) => Some(
            KeyUpdate { keycode: evdev_code_to_xkb_code(event.code), direction },
        ),
        None => None,
    }
}

/// Symbols that have a printable form which shows nothing.
pub open spec fn unprintable(sym: u32) -> bool {
    sym == XKB_KEY_ESCAPE || sym == XKB_KEY_DELETE || sym == XKB_KEY_BACKSPACE
}

/// Whether a symbol is shown by its name although it has a printable text.
pub fn is_unprintable(sym: u32) -> (yes: bool)
    ensures
        yes == unprintable(sym),
{
    sym == XKB_KEY_ESCAPE || sym == XKB_KEY_DELETE || sym == XKB_KEY_BACKSPACE
}

/// The characters that Unicode counts as white space (White_Space).
pub open spec fn white_space(c: char) -> bool {
    let u = c as u32;
    ||| 0x09 <= u <= 0x0d
    ||| u == 0x20
    ||| u == 0x85
    ||| u == 0xa0
    ||| u == 0x1680
    ||| 0x2000 <= u <= 0x200a
    ||| u == 0x2028
    ||| u == 0x2029
    ||| u == 0x202f
    ||| u == 0x205f
    ||| u == 0x3000
}

/// Whether a character is white space.
pub fn is_white_space(c: char) -> (yes: bool)
    ensures
        yes == white_space(c),
{
    let u: u32 = c as u32;
    (0x09 <= u && u <= 0x0d) || u == 0x20 || u == 0x85 || u == 0xa0 || u == 0x1680 || (0x2000 <= u
        && u <= 0x200a) || u == 0x2028 || u == 0x2029 || u == 0x202f || u == 0x205f || u == 0x3000
}

/// A text that shows nothing: it is empty or holds white space only.
pub open spec fn blank(text: Seq<char>) -> bool {
    forall|i: int| 0 <= i < text.len() ==> white_space(#[trigger] text[i])
}

/// Whether a text is empty or holds white space only.
pub fn is_blank(text: &str) -> (yes: bool)
    ensures
        yes == blank(text@),
{
    let n = text.unicode_len();
    let mut i: usize = 0;
    while i < n
        invariant
            n == text@.len(),
            i <= n,
            forall|j: int| 0 <= j < i ==> white_space(#[trigger] text@[j]),
        decreases n - i,
    {
        if !is_white_space(text.get_char(i)) {
            return false;
        }
        i += 1;
    }
    true
}

/// The modifier that a symbol stands for, where it is one of the eight fixed
/// modifier symbols: the left and the right Ctrl, Shift, Alt and Super. Every
/// other symbol, the Meta and Hyper keys and the locks among them, stands for
/// no modifier.
pub open spec fn modifier_of(sym: u32) -> Option<KeyPressView> {
    if sym == XKB_KEY_CONTROL_L || sym == XKB_KEY_CONTROL_R {
        Some(KeyPressView::Ctrl)
    } else if sym == XKB_KEY_SHIFT_L || sym == XKB_KEY_SHIFT_R {
        Some(KeyPressView::Shift)
    } else if sym == XKB_KEY_ALT_L || sym == XKB_KEY_ALT_R {
        Some(KeyPressView::Alt)
    } else if sym == XKB_KEY_SUPER_L || sym == XKB_KEY_SUPER_R {
        Some(KeyPressView::Super)
    } else {
        None
    }
}

/// The display text of a symbol: its canonical name where the symbol is
/// unprintable or its printable text is missing or blank, else that text.
/// A symbol that has neither has no display text.
pub open spec fn symbol_text(info: KeysymInfoView) -> Option<Seq<char>> {
    if unprintable(info.sym) {
        info.name
    } else {
        match info.utf8 {
            Some(text) => if blank(text) {
                info.name
            } else {
                Some(text)
            },
            None => info.name,
        }
    }
}

/// What a reported symbol resolves to.
pub open spec fn resolved(info: KeysymInfoView) -> Option<KeyPressView> {
    match modifier_of(info.sym) {
        Some(modifier) => Some(modifier),
        None => match symbol_text(info) {
            Some(text) => Some(KeyPressView::Other(text)),
            None => None,
        },
    }
}

/// A reported symbol resolves to a modifier exactly if it is one of the eight
/// modifier symbols, left and right alike, whatever text and name come with
/// it. Every other symbol resolves to its display text or to nothing.
pub proof fn lemma_only_modifier_symbols_are_modifiers(info: KeysymInfoView)
    ensures
        resolved(info) == Some(KeyPressView::Ctrl) <==> info.sym == XKB_KEY_CONTROL_L || info.sym
            == XKB_KEY_CONTROL_R,
        resolved(info) == Some(KeyPressView::Shift) <==> info.sym == XKB_KEY_SHIFT_L || info.sym
            == XKB_KEY_SHIFT_R,
        resolved(info) == Some(KeyPressView::Alt) <==> info.sym == XKB_KEY_ALT_L || info.sym
            == XKB_KEY_ALT_R,
        resolved(info) == Some(KeyPressView::Super) <==> info.sym == XKB_KEY_SUPER_L || info.sym
            == XKB_KEY_SUPER_R,
        modifier_of(info.sym) is None ==> resolved(info) == match symbol_text(info) {
            Some(text) => Some(KeyPressView::Other(text)),
            None => None,
        },
{
}

/// The mathematical value of an optional `KeyPress`.
pub open spec fn key_press_of(key: Option<KeyPress>) -> Option<KeyPressView> {
    match key {
        Some(k) => Some(k@),
        None => None,
    }
}

fn clone_text(text: &Option<String>) -> (copy: Option<String>)
    ensures
        text_of(copy) == text_of(*text),
{
    match text {
        Some(t) => Some(t.clone()),
        None => None,
    }
}

/// The display text of a reported symbol, where it has one.
pub fn keysym_to_string(info: &KeysymInfo) -> (text: Option<String>)
    ensures
        text_of(text) == symbol_text(info@),
{
    if is_unprintable(info.sym) {
        return clone_text(&info.name);
    }
    match &info.utf8 {
        Some(t) => {
            if !is_blank(t.as_str()) {
                return Some(t.clone());
            }
        },
        None => {},
    }
    clone_text(&info.name)
}

/// Resolves a reported symbol: to a modifier where it is one of the modifier
/// symbols, else to its display text, and to nothing where it has no such text.
pub fn keysym_to_keypress(info: &KeysymInfo) -> (key: Option<KeyPress>)
    ensures
        key_press_of(key) == resolved(info@),
{
    let sym = info.sym;
    if sym == XKB_KEY_CONTROL_L || sym == XKB_KEY_CONTROL_R {
        Some(KeyPress::Ctrl)
    } else if sym == XKB_KEY_SHIFT_L || sym == XKB_KEY_SHIFT_R {
        Some(KeyPress::Shift)
    } else if sym == XKB_KEY_ALT_L || sym == XKB_KEY_ALT_R {
        Some(KeyPress::Alt)
    } else if sym == XKB_KEY_SUPER_L || sym == XKB_KEY_SUPER_R {
        Some(KeyPress::Super)
    } else {
        match keysym_to_string(info) {
            Some(text) => Some(KeyPress::Other(text)),
            None => None,
        }
    }
}

} // verus!
