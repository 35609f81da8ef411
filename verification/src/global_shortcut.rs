//! Keyboard shortcuts: Electron-style accelerators converted to hotkey
//! names, parsed into modifiers and a key. Registering them with the system
//! is done by the application.

use vstd::prelude::*;
use crate::text::{
    chars_of, eq_str, lowercase, owned, replace_spec, replace_str, split_char, split_spec, string_from,
    to_lowercase, trim, trim_spec, views,
};

verus! {

/// A key of a shortcut.
#[derive(Debug, Clone, Copy, PartialEq, Eq, Structural)]
pub enum KeyCode {
    KeyA,
    KeyB,
    KeyC,
    KeyD,
    KeyE,
    KeyF,
    KeyG,
    KeyH,
    KeyI,
    KeyJ,
    KeyK,
    KeyL,
    KeyM,
    KeyN,
    KeyO,
    KeyP,
    KeyQ,
    KeyR,
    KeyS,
    KeyT,
    KeyU,
    KeyV,
    KeyW,
    KeyX,
    KeyY,
    KeyZ,
    F1,
    F2,
    F3,
    F4,
    F5,
    F6,
    F7,
    F8,
    F9,
    F10,
    F11,
    F12,
    Escape,
    Space,
    Enter,
    Tab,
    Delete,
    Backspace,
    Home,
    End,
    PageUp,
    PageDown,
    ArrowUp,
    ArrowDown,
    ArrowLeft,
    ArrowRight,
    Digit0,
    Digit1,
    Digit2,
    Digit3,
    Digit4,
    Digit5,
    Digit6,
    Digit7,
    Digit8,
    Digit9,
}

/// The modifier keys of a shortcut.
#[derive(Debug, Clone, Copy, PartialEq, Eq, Structural)]
pub struct Modifiers {
    pub control: bool,
    pub alt: bool,
    pub shift: bool,
    pub meta: bool,
}

/// A parsed shortcut.
#[derive(Debug, Clone, Copy, PartialEq, Eq, Structural)]
pub struct HotKey {
    pub modifiers: Modifiers,
    pub code: KeyCode,
}

/// An accelerator in hotkey names: `CommandOrControl` and `Control` become
/// `Ctrl`, `Command` becomes `Meta`, `Option` becomes `Alt`, in that order.
pub open spec fn convert_accelerator_spec(acc: Seq<char>) -> Seq<char> {
    replace_spec(
        replace_spec(
            replace_spec(
                replace_spec(replace_spec(acc, "CommandOrControl"@, "Ctrl"@), "Command"@, "Meta"@),
                "Control"@,
                "Ctrl"@,
            ),
            "Option"@,
            "Alt"@,
        ),
        "+"@,
        "+"@,
    )
}

/// Converts an Electron-style accelerator to hotkey names.
pub fn convert_accelerator(acc: &str) -> (r: String)
    ensures
        r@ == convert_accelerator_spec(acc@),
{
    proof {
        reveal_strlit("CommandOrControl");
        reveal_strlit("Command");
        reveal_strlit("Control");
        reveal_strlit("Option");
        reveal_strlit("+");
    }
    let v = chars_of(acc);
    let a = replace_str(v.as_slice(), "CommandOrControl", "Ctrl");
    let b = replace_str(a.as_slice(), "Command", "Meta");
    let c = replace_str(b.as_slice(), "Control", "Ctrl");
    let d = replace_str(c.as_slice(), "Option", "Alt");
    let e = replace_str(d.as_slice(), "+", "+");
    string_from(e.as_slice())
}

/// The key that a lowercase key name selects (`A` for any other name).
pub open spec fn key_code_for(name: Seq<char>) -> KeyCode {
    if name == "a"@ {
        KeyCode::KeyA
    } else if name == "b"@ {
        KeyCode::KeyB
    } else if name == "c"@ {
        KeyCode::KeyC
    } else if name == "d"@ {
        KeyCode::KeyD
    } else if name == "e"@ {
        KeyCode::KeyE
    } else if name == "f"@ {
        KeyCode::KeyF
    } else if name == "g"@ {
        KeyCode::KeyG
    } else if name == "h"@ {
        KeyCode::KeyH
    } else if name == "i"@ {
        KeyCode::KeyI
    } else if name == "j"@ {
        KeyCode::KeyJ
    } else if name == "k"@ {
        KeyCode::KeyK
    } else if name == "l"@ {
        KeyCode::KeyL
    } else if name == "m"@ {
        KeyCode::KeyM
    } else if name == "n"@ {
        KeyCode::KeyN
    } else if name == "o"@ {
        KeyCode::KeyO
    } else if name == "p"@ {
        KeyCode::KeyP
    } else if name == "q"@ {
        KeyCode::KeyQ
    } else if name == "r"@ {
        KeyCode::KeyR
    } else if name == "s"@ {
        KeyCode::KeyS
    } else if name == "t"@ {
        KeyCode::KeyT
    } else if name == "u"@ {
        KeyCode::KeyU
    } else if name == "v"@ {
        KeyCode::KeyV
    } else if name == "w"@ {
        KeyCode::KeyW
    } else if name == "x"@ {
        KeyCode::KeyX
    } else if name == "y"@ {
        KeyCode::KeyY
    } else if name == "z"@ {
        KeyCode::KeyZ
    } else if name == "f1"@ {
        KeyCode::F1
    } else if name == "f2"@ {
        KeyCode::F2
    } else if name == "f3"@ {
        KeyCode::F3
    } else if name == "f4"@ {
        KeyCode::F4
    } else if name == "f5"@ {
        KeyCode::F5
    } else if name == "f6"@ {
        KeyCode::F6
    } else if name == "f7"@ {
        KeyCode::F7
    } else if name == "f8"@ {
        KeyCode::F8
    } else if name == "f9"@ {
        KeyCode::F9
    } else if name == "f10"@ {
        KeyCode::F10
    } else if name == "f11"@ {
        KeyCode::F11
    } else if name == "f12"@ {
        KeyCode::F12
    } else if name == "escape"@ {
        KeyCode::Escape
    } else if name == "space"@ {
        KeyCode::Space
    } else if name == "enter"@ || name == "return"@ {
        KeyCode::Enter
    } else if name == "tab"@ {
        KeyCode::Tab
    } else if name == "delete"@ || name == "del"@ {
        KeyCode::Delete
    } else if name == "backspace"@ {
        KeyCode::Backspace
    } else if name == "home"@ {
        KeyCode::Home
    } else if name == "end"@ {
        KeyCode::End
    } else if name == "pageup"@ {
        KeyCode::PageUp
    } else if name == "pagedown"@ {
        KeyCode::PageDown
    } else if name == "up"@ {
        KeyCode::ArrowUp
    } else if name == "down"@ {
        KeyCode::ArrowDown
    } else if name == "left"@ {
        KeyCode::ArrowLeft
    } else if name == "right"@ {
        KeyCode::ArrowRight
    } else if name == "0"@ {
        KeyCode::Digit0
    } else if name == "1"@ {
        KeyCode::Digit1
    } else if name == "2"@ {
        KeyCode::Digit2
    } else if name == "3"@ {
        KeyCode::Digit3
    } else if name == "4"@ {
        KeyCode::Digit4
    } else if name == "5"@ {
        KeyCode::Digit5
    } else if name == "6"@ {
        KeyCode::Digit6
    } else if name == "7"@ {
        KeyCode::Digit7
    } else if name == "8"@ {
        KeyCode::Digit8
    } else if name == "9"@ {
        KeyCode::Digit9
    } else {
        KeyCode::KeyA
    }
}

/// The name under which each key is written in an accelerator (lowercase).
pub open spec fn key_name(code: KeyCode) -> Seq<char> {
    match code {
        KeyCode::KeyA => "a"@,
        KeyCode::KeyB => "b"@,
        KeyCode::KeyC => "c"@,
        KeyCode::KeyD => "d"@,
        KeyCode::KeyE => "e"@,
        KeyCode::KeyF => "f"@,
        KeyCode::KeyG => "g"@,
        KeyCode::KeyH => "h"@,
        KeyCode::KeyI => "i"@,
        KeyCode::KeyJ => "j"@,
        KeyCode::KeyK => "k"@,
        KeyCode::KeyL => "l"@,
        KeyCode::KeyM => "m"@,
        KeyCode::KeyN => "n"@,
        KeyCode::KeyO => "o"@,
        KeyCode::KeyP => "p"@,
        KeyCode::KeyQ => "q"@,
        KeyCode::KeyR => "r"@,
        KeyCode::KeyS => "s"@,
        KeyCode::KeyT => "t"@,
        KeyCode::KeyU => "u"@,
        KeyCode::KeyV => "v"@,
        KeyCode::KeyW => "w"@,
        KeyCode::KeyX => "x"@,
        KeyCode::KeyY => "y"@,
        KeyCode::KeyZ => "z"@,
        KeyCode::F1 => "f1"@,
        KeyCode::F2 => "f2"@,
        KeyCode::F3 => "f3"@,
        KeyCode::F4 => "f4"@,
        KeyCode::F5 => "f5"@,
        KeyCode::F6 => "f6"@,
        KeyCode::F7 => "f7"@,
        KeyCode::F8 => "f8"@,
        KeyCode::F9 => "f9"@,
        KeyCode::F10 => "f10"@,
        KeyCode::F11 => "f11"@,
        KeyCode::F12 => "f12"@,
        KeyCode::Escape => "escape"@,
        KeyCode::Space => "space"@,
        KeyCode::Enter => "enter"@,
        KeyCode::Tab => "tab"@,
        KeyCode::Delete => "delete"@,
        KeyCode::Backspace => "backspace"@,
        KeyCode::Home => "home"@,
        KeyCode::End => "end"@,
        KeyCode::PageUp => "pageup"@,
        KeyCode::PageDown => "pagedown"@,
        KeyCode::ArrowUp => "up"@,
        KeyCode::ArrowDown => "down"@,
        KeyCode::ArrowLeft => "left"@,
        KeyCode::ArrowRight => "right"@,
        KeyCode::Digit0 => "0"@,
        KeyCode::Digit1 => "1"@,
        KeyCode::Digit2 => "2"@,
        KeyCode::Digit3 => "3"@,
        KeyCode::Digit4 => "4"@,
        KeyCode::Digit5 => "5"@,
        KeyCode::Digit6 => "6"@,
        KeyCode::Digit7 => "7"@,
        KeyCode::Digit8 => "8"@,
        KeyCode::Digit9 => "9"@,
    }
}

/// A key name with its aliases (`return`, `del`) replaced by the names
/// they stand for.
pub open spec fn canonical_key_name(name: Seq<char>) -> Seq<char> {
    if name == "return"@ {
        "enter"@
    } else if name == "del"@ {
        "delete"@
    } else {
        name
    }
}

/// A key name is one of the names of the keys (or an alias of one).
pub open spec fn is_key_name(name: Seq<char>) -> bool {
    exists|code: KeyCode| key_name(code) == canonical_key_name(name)
}

proof fn lemma_key_name_literals()
    ensures
        "0"@.len() == 1 && "0"@[0] == '0',
        "1"@.len() == 1 && "1"@[0] == '1',
        "2"@.len() == 1 && "2"@[0] == '2',
        "3"@.len() == 1 && "3"@[0] == '3',
        "4"@.len() == 1 && "4"@[0] == '4',
        "5"@.len() == 1 && "5"@[0] == '5',
        "6"@.len() == 1 && "6"@[0] == '6',
        "7"@.len() == 1 && "7"@[0] == '7',
        "8"@.len() == 1 && "8"@[0] == '8',
        "9"@.len() == 1 && "9"@[0] == '9',
        "a"@.len() == 1 && "a"@[0] == 'a',
        "b"@.len() == 1 && "b"@[0] == 'b',
        "backspace"@.len() == 9 && "backspace"@[0] == 'b' && "backspace"@[1] == 'a' && "backspace"@[2] == 'c' && "backspace"@[3] == 'k' && "backspace"@[4] == 's' && "backspace"@[5] == 'p' && "backspace"@[6] == 'a' && "backspace"@[7] == 'c' && "backspace"@[8] == 'e',
        "c"@.len() == 1 && "c"@[0] == 'c',
        "d"@.len() == 1 && "d"@[0] == 'd',
        "del"@.len() == 3 && "del"@[0] == 'd' && "del"@[1] == 'e' && "del"@[2] == 'l',
        "delete"@.len() == 6 && "delete"@[0] == 'd' && "delete"@[1] == 'e' && "delete"@[2] == 'l' && "delete"@[3] == 'e' && "delete"@[4] == 't' && "delete"@[5] == 'e',
        "down"@.len() == 4 && "down"@[0] == 'd' && "down"@[1] == 'o' && "down"@[2] == 'w' && "down"@[3] == 'n',
        "e"@.len() == 1 && "e"@[0] == 'e',
        "end"@.len() == 3 && "end"@[0] == 'e' && "end"@[1] == 'n' && "end"@[2] == 'd',
        "enter"@.len() == 5 && "enter"@[0] == 'e' && "enter"@[1] == 'n' && "enter"@[2] == 't' && "enter"@[3] == 'e' && "enter"@[4] == 'r',
        "escape"@.len() == 6 && "escape"@[0] == 'e' && "escape"@[1] == 's' && "escape"@[2] == 'c' && "escape"@[3] == 'a' && "escape"@[4] == 'p' && "escape"@[5] == 'e',
        "f"@.len() == 1 && "f"@[0] == 'f',
        "f1"@.len() == 2 && "f1"@[0] == 'f' && "f1"@[1] == '1',
        "f10"@.len() == 3 && "f10"@[0] == 'f' && "f10"@[1] == '1' && "f10"@[2] == '0',
        "f11"@.len() == 3 && "f11"@[0] == 'f' && "f11"@[1] == '1' && "f11"@[2] == '1',
        "f12"@.len() == 3 && "f12"@[0] == 'f' && "f12"@[1] == '1' && "f12"@[2] == '2',
        "f2"@.len() == 2 && "f2"@[0] == 'f' && "f2"@[1] == '2',
        "f3"@.len() == 2 && "f3"@[0] == 'f' && "f3"@[1] == '3',
        "f4"@.len() == 2 && "f4"@[0] == 'f' && "f4"@[1] == '4',
        "f5"@.len() == 2 && "f5"@[0] == 'f' && "f5"@[1] == '5',
        "f6"@.len() == 2 && "f6"@[0] == 'f' && "f6"@[1] == '6',
        "f7"@.len() == 2 && "f7"@[0] == 'f' && "f7"@[1] == '7',
        "f8"@.len() == 2 && "f8"@[0] == 'f' && "f8"@[1] == '8',
        "f9"@.len() == 2 && "f9"@[0] == 'f' && "f9"@[1] == '9',
        "g"@.len() == 1 && "g"@[0] == 'g',
        "h"@.len() == 1 && "h"@[0] == 'h',
        "home"@.len() == 4 && "home"@[0] == 'h' && "home"@[1] == 'o' && "home"@[2] == 'm' && "home"@[3] == 'e',
        "i"@.len() == 1 && "i"@[0] == 'i',
        "j"@.len() == 1 && "j"@[0] == 'j',
        "k"@.len() == 1 && "k"@[0] == 'k',
        "l"@.len() == 1 && "l"@[0] == 'l',
        "left"@.len() == 4 && "left"@[0] == 'l' && "left"@[1] == 'e' && "left"@[2] == 'f' && "left"@[3] == 't',
        "m"@.len() == 1 && "m"@[0] == 'm',
        "n"@.len() == 1 && "n"@[0] == 'n',
        "o"@.len() == 1 && "o"@[0] == 'o',
        "p"@.len() == 1 && "p"@[0] == 'p',
        "pagedown"@.len() == 8 && "pagedown"@[0] == 'p' && "pagedown"@[1] == 'a' && "pagedown"@[2] == 'g' && "pagedown"@[3] == 'e' && "pagedown"@[4] == 'd' && "pagedown"@[5] == 'o' && "pagedown"@[6] == 'w' && "pagedown"@[7] == 'n',
        "pageup"@.len() == 6 && "pageup"@[0] == 'p' && "pageup"@[1] == 'a' && "pageup"@[2] == 'g' && "pageup"@[3] == 'e' && "pageup"@[4] == 'u' && "pageup"@[5] == 'p',
        "q"@.len() == 1 && "q"@[0] == 'q',
        "r"@.len() == 1 && "r"@[0] == 'r',
        "return"@.len() == 6 && "return"@[0] == 'r' && "return"@[1] == 'e' && "return"@[2] == 't' && "return"@[3] == 'u' && "return"@[4] == 'r' && "return"@[5] == 'n',
        "right"@.len() == 5 && "right"@[0] == 'r' && "right"@[1] == 'i' && "right"@[2] == 'g' && "right"@[3] == 'h' && "right"@[4] == 't',
        "s"@.len() == 1 && "s"@[0] == 's',
        "space"@.len() == 5 && "space"@[0] == 's' && "space"@[1] == 'p' && "space"@[2] == 'a' && "space"@[3] == 'c' && "space"@[4] == 'e',
        "t"@.len() == 1 && "t"@[0] == 't',
        "tab"@.len() == 3 && "tab"@[0] == 't' && "tab"@[1] == 'a' && "tab"@[2] == 'b',
        "u"@.len() == 1 && "u"@[0] == 'u',
        "up"@.len() == 2 && "up"@[0] == 'u' && "up"@[1] == 'p',
        "v"@.len() == 1 && "v"@[0] == 'v',
        "w"@.len() == 1 && "w"@[0] == 'w',
        "x"@.len() == 1 && "x"@[0] == 'x',
        "y"@.len() == 1 && "y"@[0] == 'y',
        "z"@.len() == 1 && "z"@[0] == 'z',
{
    reveal_strlit("0");
    assert("0"@.len() == 1 && "0"@[0] == '0');
    reveal_strlit("1");
    assert("1"@.len() == 1 && "1"@[0] == '1');
    reveal_strlit("2");
    assert("2"@.len() == 1 && "2"@[0] == '2');
    reveal_strlit("3");
    assert("3"@.len() == 1 && "3"@[0] == '3');
    reveal_strlit("4");
    assert("4"@.len() == 1 && "4"@[0] == '4');
    reveal_strlit("5");
    assert("5"@.len() == 1 && "5"@[0] == '5');
    reveal_strlit("6");
    assert("6"@.len() == 1 && "6"@[0] == '6');
    reveal_strlit("7");
    assert("7"@.len() == 1 && "7"@[0] == '7');
    reveal_strlit("8");
    assert("8"@.len() == 1 && "8"@[0] == '8');
    reveal_strlit("9");
    assert("9"@.len() == 1 && "9"@[0] == '9');
    reveal_strlit("a");
    assert("a"@.len() == 1 && "a"@[0] == 'a');
    reveal_strlit("b");
    assert("b"@.len() == 1 && "b"@[0] == 'b');
    reveal_strlit("backspace");
    assert("backspace"@.len() == 9 && "backspace"@[0] == 'b' && "backspace"@[1] == 'a' && "backspace"@[2] == 'c' && "backspace"@[3] == 'k' && "backspace"@[4] == 's' && "backspace"@[5] == 'p' && "backspace"@[6] == 'a' && "backspace"@[7] == 'c' && "backspace"@[8] == 'e');
    reveal_strlit("c");
    assert("c"@.len() == 1 && "c"@[0] == 'c');
    reveal_strlit("d");
    assert("d"@.len() == 1 && "d"@[0] == 'd');
    reveal_strlit("del");
    assert("del"@.len() == 3 && "del"@[0] == 'd' && "del"@[1] == 'e' && "del"@[2] == 'l');
    reveal_strlit("delete");
    assert("delete"@.len() == 6 && "delete"@[0] == 'd' && "delete"@[1] == 'e' && "delete"@[2] == 'l' && "delete"@[3] == 'e' && "delete"@[4] == 't' && "delete"@[5] == 'e');
    reveal_strlit("down");
    assert("down"@.len() == 4 && "down"@[0] == 'd' && "down"@[1] == 'o' && "down"@[2] == 'w' && "down"@[3] == 'n');
    reveal_strlit("e");
    assert("e"@.len() == 1 && "e"@[0] == 'e');
    reveal_strlit("end");
    assert("end"@.len() == 3 && "end"@[0] == 'e' && "end"@[1] == 'n' && "end"@[2] == 'd');
    reveal_strlit("enter");
    assert("enter"@.len() == 5 && "enter"@[0] == 'e' && "enter"@[1] == 'n' && "enter"@[2] == 't' && "enter"@[3] == 'e' && "enter"@[4] == 'r');
    reveal_strlit("escape");
    assert("escape"@.len() == 6 && "escape"@[0] == 'e' && "escape"@[1] == 's' && "escape"@[2] == 'c' && "escape"@[3] == 'a' && "escape"@[4] == 'p' && "escape"@[5] == 'e');
    reveal_strlit("f");
    assert("f"@.len() == 1 && "f"@[0] == 'f');
    reveal_strlit("f1");
    assert("f1"@.len() == 2 && "f1"@[0] == 'f' && "f1"@[1] == '1');
    reveal_strlit("f10");
    assert("f10"@.len() == 3 && "f10"@[0] == 'f' && "f10"@[1] == '1' && "f10"@[2] == '0');
    reveal_strlit("f11");
    assert("f11"@.len() == 3 && "f11"@[0] == 'f' && "f11"@[1] == '1' && "f11"@[2] == '1');
    reveal_strlit("f12");
    assert("f12"@.len() == 3 && "f12"@[0] == 'f' && "f12"@[1] == '1' && "f12"@[2] == '2');
    reveal_strlit("f2");
    assert("f2"@.len() == 2 && "f2"@[0] == 'f' && "f2"@[1] == '2');
    reveal_strlit("f3");
    assert("f3"@.len() == 2 && "f3"@[0] == 'f' && "f3"@[1] == '3');
    reveal_strlit("f4");
    assert("f4"@.len() == 2 && "f4"@[0] == 'f' && "f4"@[1] == '4');
    reveal_strlit("f5");
    assert("f5"@.len() == 2 && "f5"@[0] == 'f' && "f5"@[1] == '5');
    reveal_strlit("f6");
    assert("f6"@.len() == 2 && "f6"@[0] == 'f' && "f6"@[1] == '6');
    reveal_strlit("f7");
    assert("f7"@.len() == 2 && "f7"@[0] == 'f' && "f7"@[1] == '7');
    reveal_strlit("f8");
    assert("f8"@.len() == 2 && "f8"@[0] == 'f' && "f8"@[1] == '8');
    reveal_strlit("f9");
    assert("f9"@.len() == 2 && "f9"@[0] == 'f' && "f9"@[1] == '9');
    reveal_strlit("g");
    assert("g"@.len() == 1 && "g"@[0] == 'g');
    reveal_strlit("h");
    assert("h"@.len() == 1 && "h"@[0] == 'h');
    reveal_strlit("home");
    assert("home"@.len() == 4 && "home"@[0] == 'h' && "home"@[1] == 'o' && "home"@[2] == 'm' && "home"@[3] == 'e');
    reveal_strlit("i");
    assert("i"@.len() == 1 && "i"@[0] == 'i');
    reveal_strlit("j");
    assert("j"@.len() == 1 && "j"@[0] == 'j');
    reveal_strlit("k");
    assert("k"@.len() == 1 && "k"@[0] == 'k');
    reveal_strlit("l");
    assert("l"@.len() == 1 && "l"@[0] == 'l');
    reveal_strlit("left");
    assert("left"@.len() == 4 && "left"@[0] == 'l' && "left"@[1] == 'e' && "left"@[2] == 'f' && "left"@[3] == 't');
    reveal_strlit("m");
    assert("m"@.len() == 1 && "m"@[0] == 'm');
    reveal_strlit("n");
    assert("n"@.len() == 1 && "n"@[0] == 'n');
    reveal_strlit("o");
    assert("o"@.len() == 1 && "o"@[0] == 'o');
    reveal_strlit("p");
    assert("p"@.len() == 1 && "p"@[0] == 'p');
    reveal_strlit("pagedown");
    assert("pagedown"@.len() == 8 && "pagedown"@[0] == 'p' && "pagedown"@[1] == 'a' && "pagedown"@[2] == 'g' && "pagedown"@[3] == 'e' && "pagedown"@[4] == 'd' && "pagedown"@[5] == 'o' && "pagedown"@[6] == 'w' && "pagedown"@[7] == 'n');
    reveal_strlit("pageup");
    assert("pageup"@.len() == 6 && "pageup"@[0] == 'p' && "pageup"@[1] == 'a' && "pageup"@[2] == 'g' && "pageup"@[3] == 'e' && "pageup"@[4] == 'u' && "pageup"@[5] == 'p');
    reveal_strlit("q");
    assert("q"@.len() == 1 && "q"@[0] == 'q');
    reveal_strlit("r");
    assert("r"@.len() == 1 && "r"@[0] == 'r');
    reveal_strlit("return");
    assert("return"@.len() == 6 && "return"@[0] == 'r' && "return"@[1] == 'e' && "return"@[2] == 't' && "return"@[3] == 'u' && "return"@[4] == 'r' && "return"@[5] == 'n');
    reveal_strlit("right");
    assert("right"@.len() == 5 && "right"@[0] == 'r' && "right"@[1] == 'i' && "right"@[2] == 'g' && "right"@[3] == 'h' && "right"@[4] == 't');
    reveal_strlit("s");
    assert("s"@.len() == 1 && "s"@[0] == 's');
    reveal_strlit("space");
    assert("space"@.len() == 5 && "space"@[0] == 's' && "space"@[1] == 'p' && "space"@[2] == 'a' && "space"@[3] == 'c' && "space"@[4] == 'e');
    reveal_strlit("t");
    assert("t"@.len() == 1 && "t"@[0] == 't');
    reveal_strlit("tab");
    assert("tab"@.len() == 3 && "tab"@[0] == 't' && "tab"@[1] == 'a' && "tab"@[2] == 'b');
    reveal_strlit("u");
    assert("u"@.len() == 1 && "u"@[0] == 'u');
    reveal_strlit("up");
    assert("up"@.len() == 2 && "up"@[0] == 'u' && "up"@[1] == 'p');
    reveal_strlit("v");
    assert("v"@.len() == 1 && "v"@[0] == 'v');
    reveal_strlit("w");
    assert("w"@.len() == 1 && "w"@[0] == 'w');
    reveal_strlit("x");
    assert("x"@.len() == 1 && "x"@[0] == 'x');
    reveal_strlit("y");
    assert("y"@.len() == 1 && "y"@[0] == 'y');
    reveal_strlit("z");
    assert("z"@.len() == 1 && "z"@[0] == 'z');
}

/// Every key name selects the key of that name: `up`, `down`, `left` and
/// `right` the arrow keys of their direction, each letter, digit and
/// function key its own key, and so on; an alias selects the key it
/// stands for. A name that is no key name selects `A`.
#[verifier::spinoff_prover]
pub proof fn law_key_code_by_name(name: Seq<char>)
    ensures
        is_key_name(name) ==> key_name(key_code_for(name)) == canonical_key_name(name),
        !is_key_name(name) ==> key_code_for(name) == KeyCode::KeyA,
        name == "up"@ ==> key_code_for(name) == KeyCode::ArrowUp,
        name == "down"@ ==> key_code_for(name) == KeyCode::ArrowDown,
        name == "left"@ ==> key_code_for(name) == KeyCode::ArrowLeft,
        name == "right"@ ==> key_code_for(name) == KeyCode::ArrowRight,
{
    lemma_key_name_literals();
    if is_key_name(name) {
        let code = choose|code: KeyCode| key_name(code) == canonical_key_name(name);
        match code {
            KeyCode::KeyA => {},
            KeyCode::KeyB => {},
            KeyCode::KeyC => {},
            KeyCode::KeyD => {},
            KeyCode::KeyE => {},
            KeyCode::KeyF => {},
            KeyCode::KeyG => {},
            KeyCode::KeyH => {},
            KeyCode::KeyI => {},
            KeyCode::KeyJ => {},
            KeyCode::KeyK => {},
            KeyCode::KeyL => {},
            KeyCode::KeyM => {},
            KeyCode::KeyN => {},
            KeyCode::KeyO => {},
            KeyCode::KeyP => {},
            KeyCode::KeyQ => {},
            KeyCode::KeyR => {},
            KeyCode::KeyS => {},
            KeyCode::KeyT => {},
            KeyCode::KeyU => {},
            KeyCode::KeyV => {},
            KeyCode::KeyW => {},
            KeyCode::KeyX => {},
            KeyCode::KeyY => {},
            KeyCode::KeyZ => {},
            KeyCode::F1 => {},
            KeyCode::F2 => {},
            KeyCode::F3 => {},
            KeyCode::F4 => {},
            KeyCode::F5 => {},
            KeyCode::F6 => {},
            KeyCode::F7 => {},
            KeyCode::F8 => {},
            KeyCode::F9 => {},
            KeyCode::F10 => {},
            KeyCode::F11 => {},
            KeyCode::F12 => {},
            KeyCode::Escape => {},
            KeyCode::Space => {},
            KeyCode::Enter => {},
            KeyCode::Tab => {},
            KeyCode::Delete => {},
            KeyCode::Backspace => {},
            KeyCode::Home => {},
            KeyCode::End => {},
            KeyCode::PageUp => {},
            KeyCode::PageDown => {},
            KeyCode::ArrowUp => {},
            KeyCode::ArrowDown => {},
            KeyCode::ArrowLeft => {},
            KeyCode::ArrowRight => {},
            KeyCode::Digit0 => {},
            KeyCode::Digit1 => {},
            KeyCode::Digit2 => {},
            KeyCode::Digit3 => {},
            KeyCode::Digit4 => {},
            KeyCode::Digit5 => {},
            KeyCode::Digit6 => {},
            KeyCode::Digit7 => {},
            KeyCode::Digit8 => {},
            KeyCode::Digit9 => {},
        }
    } else {
        assert(key_name(KeyCode::KeyA) != canonical_key_name(name));
        assert(key_name(KeyCode::KeyB) != canonical_key_name(name));
        assert(key_name(KeyCode::KeyC) != canonical_key_name(name));
        assert(key_name(KeyCode::KeyD) != canonical_key_name(name));
        assert(key_name(KeyCode::KeyE) != canonical_key_name(name));
        assert(key_name(KeyCode::KeyF) != canonical_key_name(name));
        assert(key_name(KeyCode::KeyG) != canonical_key_name(name));
        assert(key_name(KeyCode::KeyH) != canonical_key_name(name));
        assert(key_name(KeyCode::KeyI) != canonical_key_name(name));
        assert(key_name(KeyCode::KeyJ) != canonical_key_name(name));
        assert(key_name(KeyCode::KeyK) != canonical_key_name(name));
        assert(key_name(KeyCode::KeyL) != canonical_key_name(name));
        assert(key_name(KeyCode::KeyM) != canonical_key_name(name));
        assert(key_name(KeyCode::KeyN) != canonical_key_name(name));
        assert(key_name(KeyCode::KeyO) != canonical_key_name(name));
        assert(key_name(KeyCode::KeyP) != canonical_key_name(name));
        assert(key_name(KeyCode::KeyQ) != canonical_key_name(name));
        assert(key_name(KeyCode::KeyR) != canonical_key_name(name));
        assert(key_name(KeyCode::KeyS) != canonical_key_name(name));
        assert(key_name(KeyCode::KeyT) != canonical_key_name(name));
        assert(key_name(KeyCode::KeyU) != canonical_key_name(name));
        assert(key_name(KeyCode::KeyV) != canonical_key_name(name));
        assert(key_name(KeyCode::KeyW) != canonical_key_name(name));
        assert(key_name(KeyCode::KeyX) != canonical_key_name(name));
        assert(key_name(KeyCode::KeyY) != canonical_key_name(name));
        assert(key_name(KeyCode::KeyZ) != canonical_key_name(name));
        assert(key_name(KeyCode::F1) != canonical_key_name(name));
        assert(key_name(KeyCode::F2) != canonical_key_name(name));
        assert(key_name(KeyCode::F3) != canonical_key_name(name));
        assert(key_name(KeyCode::F4) != canonical_key_name(name));
        assert(key_name(KeyCode::F5) != canonical_key_name(name));
        assert(key_name(KeyCode::F6) != canonical_key_name(name));
        assert(key_name(KeyCode::F7) != canonical_key_name(name));
        assert(key_name(KeyCode::F8) != canonical_key_name(name));
        assert(key_name(KeyCode::F9) != canonical_key_name(name));
        assert(key_name(KeyCode::F10) != canonical_key_name(name));
        assert(key_name(KeyCode::F11) != canonical_key_name(name));
        assert(key_name(KeyCode::F12) != canonical_key_name(name));
        assert(key_name(KeyCode::Escape) != canonical_key_name(name));
        assert(key_name(KeyCode::Space) != canonical_key_name(name));
        assert(key_name(KeyCode::Enter) != canonical_key_name(name));
        assert(key_name(KeyCode::Tab) != canonical_key_name(name));
        assert(key_name(KeyCode::Delete) != canonical_key_name(name));
        assert(key_name(KeyCode::Backspace) != canonical_key_name(name));
        assert(key_name(KeyCode::Home) != canonical_key_name(name));
        assert(key_name(KeyCode::End) != canonical_key_name(name));
        assert(key_name(KeyCode::PageUp) != canonical_key_name(name));
        assert(key_name(KeyCode::PageDown) != canonical_key_name(name));
        assert(key_name(KeyCode::ArrowUp) != canonical_key_name(name));
        assert(key_name(KeyCode::ArrowDown) != canonical_key_name(name));
        assert(key_name(KeyCode::ArrowLeft) != canonical_key_name(name));
        assert(key_name(KeyCode::ArrowRight) != canonical_key_name(name));
        assert(key_name(KeyCode::Digit0) != canonical_key_name(name));
        assert(key_name(KeyCode::Digit1) != canonical_key_name(name));
        assert(key_name(KeyCode::Digit2) != canonical_key_name(name));
        assert(key_name(KeyCode::Digit3) != canonical_key_name(name));
        assert(key_name(KeyCode::Digit4) != canonical_key_name(name));
        assert(key_name(KeyCode::Digit5) != canonical_key_name(name));
        assert(key_name(KeyCode::Digit6) != canonical_key_name(name));
        assert(key_name(KeyCode::Digit7) != canonical_key_name(name));
        assert(key_name(KeyCode::Digit8) != canonical_key_name(name));
        assert(key_name(KeyCode::Digit9) != canonical_key_name(name));
    }
}

/// Different keys are selected by different names: two key names select
/// the same key only where they name it alike (one may be an alias).
pub proof fn law_key_codes_distinct(a: Seq<char>, b: Seq<char>)
    requires
        is_key_name(a),
        is_key_name(b),
        canonical_key_name(a) != canonical_key_name(b),
    ensures
        key_code_for(a) != key_code_for(b),
{
    law_key_code_by_name(a);
    law_key_code_by_name(b);
}
fn key_code_of(name: &[char]) -> (r: KeyCode)
    ensures
        r == key_code_for(name@),
{
    if eq_str(name, "a") {
        return KeyCode::KeyA;
    }
    if eq_str(name, "b") {
        return KeyCode::KeyB;
    }
    if eq_str(name, "c") {
        return KeyCode::KeyC;
    }
    if eq_str(name, "d") {
        return KeyCode::KeyD;
    }
    if eq_str(name, "e") {
        return KeyCode::KeyE;
    }
    if eq_str(name, "f") {
        return KeyCode::KeyF;
    }
    if eq_str(name, "g") {
        return KeyCode::KeyG;
    }
    if eq_str(name, "h") {
        return KeyCode::KeyH;
    }
    if eq_str(name, "i") {
        return KeyCode::KeyI;
    }
    if eq_str(name, "j") {
        return KeyCode::KeyJ;
    }
    if eq_str(name, "k") {
        return KeyCode::KeyK;
    }
    if eq_str(name, "l") {
        return KeyCode::KeyL;
    }
    if eq_str(name, "m") {
        return KeyCode::KeyM;
    }
    if eq_str(name, "n") {
        return KeyCode::KeyN;
    }
    if eq_str(name, "o") {
        return KeyCode::KeyO;
    }
    if eq_str(name, "p") {
        return KeyCode::KeyP;
    }
    if eq_str(name, "q") {
        return KeyCode::KeyQ;
    }
    if eq_str(name, "r") {
        return KeyCode::KeyR;
    }
    if eq_str(name, "s") {
        return KeyCode::KeyS;
    }
    if eq_str(name, "t") {
        return KeyCode::KeyT;
    }
    if eq_str(name, "u") {
        return KeyCode::KeyU;
    }
    if eq_str(name, "v") {
        return KeyCode::KeyV;
    }
    if eq_str(name, "w") {
        return KeyCode::KeyW;
    }
    if eq_str(name, "x") {
        return KeyCode::KeyX;
    }
    if eq_str(name, "y") {
        return KeyCode::KeyY;
    }
    if eq_str(name, "z") {
        return KeyCode::KeyZ;
    }
    if eq_str(name, "f1") {
        return KeyCode::F1;
    }
    if eq_str(name, "f2") {
        return KeyCode::F2;
    }
    if eq_str(name, "f3") {
        return KeyCode::F3;
    }
    if eq_str(name, "f4") {
        return KeyCode::F4;
    }
    if eq_str(name, "f5") {
        return KeyCode::F5;
    }
    if eq_str(name, "f6") {
        return KeyCode::F6;
    }
    if eq_str(name, "f7") {
        return KeyCode::F7;
    }
    if eq_str(name, "f8") {
        return KeyCode::F8;
    }
    if eq_str(name, "f9") {
        return KeyCode::F9;
    }
    if eq_str(name, "f10") {
        return KeyCode::F10;
    }
    if eq_str(name, "f11") {
        return KeyCode::F11;
    }
    if eq_str(name, "f12") {
        return KeyCode::F12;
    }
    if eq_str(name, "escape") {
        return KeyCode::Escape;
    }
    if eq_str(name, "space") {
        return KeyCode::Space;
    }
    if eq_str(name, "enter") || eq_str(name, "return") {
        return KeyCode::Enter;
    }
    if eq_str(name, "tab") {
        return KeyCode::Tab;
    }
    if eq_str(name, "delete") || eq_str(name, "del") {
        return KeyCode::Delete;
    }
    if eq_str(name, "backspace") {
        return KeyCode::Backspace;
    }
    if eq_str(name, "home") {
        return KeyCode::Home;
    }
    if eq_str(name, "end") {
        return KeyCode::End;
    }
    if eq_str(name, "pageup") {
        return KeyCode::PageUp;
    }
    if eq_str(name, "pagedown") {
        return KeyCode::PageDown;
    }
    if eq_str(name, "up") {
        return KeyCode::ArrowUp;
    }
    if eq_str(name, "down") {
        return KeyCode::ArrowDown;
    }
    if eq_str(name, "left") {
        return KeyCode::ArrowLeft;
    }
    if eq_str(name, "right") {
        return KeyCode::ArrowRight;
    }
    if eq_str(name, "0") {
        return KeyCode::Digit0;
    }
    if eq_str(name, "1") {
        return KeyCode::Digit1;
    }
    if eq_str(name, "2") {
        return KeyCode::Digit2;
    }
    if eq_str(name, "3") {
        return KeyCode::Digit3;
    }
    if eq_str(name, "4") {
        return KeyCode::Digit4;
    }
    if eq_str(name, "5") {
        return KeyCode::Digit5;
    }
    if eq_str(name, "6") {
        return KeyCode::Digit6;
    }
    if eq_str(name, "7") {
        return KeyCode::Digit7;
    }
    if eq_str(name, "8") {
        return KeyCode::Digit8;
    }
    if eq_str(name, "9") {
        return KeyCode::Digit9;
    }
    KeyCode::KeyA
}

/// The key that a key name selects, in any case.
pub fn code_from_str(s: &str) -> (r: KeyCode)
    ensures
        r == key_code_for(lowercase(s@)),
{
    let v = chars_of(s);
    let l = to_lowercase(v.as_slice());
    key_code_of(l.as_slice())
}

/// What the parts of a shortcut read so far give: the modifiers, and the
/// last part that is no modifier.
pub struct ParseState {
    pub modifiers: Modifiers,
    pub key: Option<Seq<char>>,
}

/// One more (trimmed) part of a shortcut.
pub open spec fn parse_step(st: ParseState, part: Seq<char>) -> ParseState {
    let l = lowercase(part);
    if l == "ctrl"@ || l == "control"@ {
        ParseState { modifiers: Modifiers { control: true, ..st.modifiers }, ..st }
    } else if l == "alt"@ || l == "option"@ {
        ParseState { modifiers: Modifiers { alt: true, ..st.modifiers }, ..st }
    } else if l == "shift"@ {
        ParseState { modifiers: Modifiers { shift: true, ..st.modifiers }, ..st }
    } else if l == "meta"@ || l == "cmd"@ || l == "command"@ || l == "win"@ {
        ParseState { modifiers: Modifiers { meta: true, ..st.modifiers }, ..st }
    } else {
        ParseState { key: Some(part), ..st }
    }
}

/// The state after the given parts.
pub open spec fn parse_parts(parts: Seq<Seq<char>>) -> ParseState
    decreases parts.len(),
{
    if parts.len() == 0 {
        ParseState {
            modifiers: Modifiers { control: false, alt: false, shift: false, meta: false },
            key: None,
        }
    } else {
        parse_step(parse_parts(parts.drop_last()), trim_spec(parts.last()))
    }
}

/// The shortcut an accelerator in hotkey names gives: its `+`-separated
/// parts, trimmed, are modifiers or the key (the last such part; `A` where
/// there is none).
pub open spec fn hotkey_spec(acc: Seq<char>) -> HotKey {
    let st = parse_parts(split_spec(acc, '+'));
    HotKey {
        modifiers: st.modifiers,
        code: key_code_for(lowercase(match st.key {
            Some(k) => k,
            None => "A"@,
        })),
    }
}

/// A part of a shortcut names the Control modifier (`ctrl` or `control`,
/// in any case, around spaces).
pub open spec fn names_control(part: Seq<char>) -> bool {
    lowercase(trim_spec(part)) == "ctrl"@ || lowercase(trim_spec(part)) == "control"@
}

/// A part names the Alt modifier (`alt` or `option`).
pub open spec fn names_alt(part: Seq<char>) -> bool {
    lowercase(trim_spec(part)) == "alt"@ || lowercase(trim_spec(part)) == "option"@
}

/// A part names the Shift modifier.
pub open spec fn names_shift(part: Seq<char>) -> bool {
    lowercase(trim_spec(part)) == "shift"@
}

/// A part names the Meta modifier (`meta`, `cmd`, `command` or `win`).
pub open spec fn names_meta(part: Seq<char>) -> bool {
    lowercase(trim_spec(part)) == "meta"@ || lowercase(trim_spec(part)) == "cmd"@ || lowercase(
        trim_spec(part),
    ) == "command"@ || lowercase(trim_spec(part)) == "win"@
}

/// A part names no modifier: it is (a candidate for) the key.
pub open spec fn names_key(part: Seq<char>) -> bool {
    !names_control(part) && !names_alt(part) && !names_shift(part) && !names_meta(part)
}

proof fn lemma_modifier_literals()
    ensures
        "ctrl"@.len() == 4 && "ctrl"@[0] == 'c' && "ctrl"@[1] == 't' && "ctrl"@[2] == 'r' && "ctrl"@[3] == 'l',
        "control"@.len() == 7 && "control"@[0] == 'c' && "control"@[1] == 'o' && "control"@[2] == 'n' && "control"@[3] == 't' && "control"@[4] == 'r' && "control"@[5] == 'o' && "control"@[6] == 'l',
        "alt"@.len() == 3 && "alt"@[0] == 'a' && "alt"@[1] == 'l' && "alt"@[2] == 't',
        "option"@.len() == 6 && "option"@[0] == 'o' && "option"@[1] == 'p' && "option"@[2] == 't' && "option"@[3] == 'i' && "option"@[4] == 'o' && "option"@[5] == 'n',
        "shift"@.len() == 5 && "shift"@[0] == 's' && "shift"@[1] == 'h' && "shift"@[2] == 'i' && "shift"@[3] == 'f' && "shift"@[4] == 't',
        "meta"@.len() == 4 && "meta"@[0] == 'm' && "meta"@[1] == 'e' && "meta"@[2] == 't' && "meta"@[3] == 'a',
        "cmd"@.len() == 3 && "cmd"@[0] == 'c' && "cmd"@[1] == 'm' && "cmd"@[2] == 'd',
        "command"@.len() == 7 && "command"@[0] == 'c' && "command"@[1] == 'o' && "command"@[2] == 'm' && "command"@[3] == 'm' && "command"@[4] == 'a' && "command"@[5] == 'n' && "command"@[6] == 'd',
        "win"@.len() == 3 && "win"@[0] == 'w' && "win"@[1] == 'i' && "win"@[2] == 'n',
{
    reveal_strlit("ctrl");
    assert("ctrl"@.len() == 4 && "ctrl"@[0] == 'c' && "ctrl"@[1] == 't' && "ctrl"@[2] == 'r' && "ctrl"@[3] == 'l');
    reveal_strlit("control");
    assert("control"@.len() == 7 && "control"@[0] == 'c' && "control"@[1] == 'o' && "control"@[2] == 'n' && "control"@[3] == 't' && "control"@[4] == 'r' && "control"@[5] == 'o' && "control"@[6] == 'l');
    reveal_strlit("alt");
    assert("alt"@.len() == 3 && "alt"@[0] == 'a' && "alt"@[1] == 'l' && "alt"@[2] == 't');
    reveal_strlit("option");
    assert("option"@.len() == 6 && "option"@[0] == 'o' && "option"@[1] == 'p' && "option"@[2] == 't' && "option"@[3] == 'i' && "option"@[4] == 'o' && "option"@[5] == 'n');
    reveal_strlit("shift");
    assert("shift"@.len() == 5 && "shift"@[0] == 's' && "shift"@[1] == 'h' && "shift"@[2] == 'i' && "shift"@[3] == 'f' && "shift"@[4] == 't');
    reveal_strlit("meta");
    assert("meta"@.len() == 4 && "meta"@[0] == 'm' && "meta"@[1] == 'e' && "meta"@[2] == 't' && "meta"@[3] == 'a');
    reveal_strlit("cmd");
    assert("cmd"@.len() == 3 && "cmd"@[0] == 'c' && "cmd"@[1] == 'm' && "cmd"@[2] == 'd');
    reveal_strlit("command");
    assert("command"@.len() == 7 && "command"@[0] == 'c' && "command"@[1] == 'o' && "command"@[2] == 'm' && "command"@[3] == 'm' && "command"@[4] == 'a' && "command"@[5] == 'n' && "command"@[6] == 'd');
    reveal_strlit("win");
    assert("win"@.len() == 3 && "win"@[0] == 'w' && "win"@[1] == 'i' && "win"@[2] == 'n');
}

/// Reading parts sets each modifier exactly where some part names it, and
/// takes as the key the last part that names no modifier.
#[verifier::spinoff_prover]
proof fn lemma_parse_parts(parts: Seq<Seq<char>>)
    ensures
        parse_parts(parts).modifiers.control <==> exists|i: int| 0 <= i < parts.len() && names_control(#[trigger] parts[i]),
        parse_parts(parts).modifiers.alt <==> exists|i: int| 0 <= i < parts.len() && names_alt(#[trigger] parts[i]),
        parse_parts(parts).modifiers.shift <==> exists|i: int| 0 <= i < parts.len() && names_shift(#[trigger] parts[i]),
        parse_parts(parts).modifiers.meta <==> exists|i: int| 0 <= i < parts.len() && names_meta(#[trigger] parts[i]),
        parse_parts(parts).key is None <==> forall|i: int| 0 <= i < parts.len() ==> !names_key(#[trigger] parts[i]),
        parse_parts(parts).key matches Some(k) ==> exists|i: int|
            0 <= i < parts.len() && names_key(#[trigger] parts[i]) && k == trim_spec(parts[i]) && forall|j: int|
                i < j < parts.len() ==> !names_key(#[trigger] parts[j]),
    decreases parts.len(),
{
    lemma_modifier_literals();
    if parts.len() > 0 {
        let d = parts.drop_last();
        let last = parts.last();
        lemma_parse_parts(d);
        assert forall|i: int| 0 <= i < d.len() implies #[trigger] d[i] == parts[i] by {}
        assert(parts[parts.len() - 1] == last);
        if parse_parts(d).modifiers.control {
            let i = choose|i: int| 0 <= i < d.len() && names_control(#[trigger] d[i]);
            assert(parts[i] == d[i]);
        }
        if parse_parts(d).modifiers.alt {
            let i = choose|i: int| 0 <= i < d.len() && names_alt(#[trigger] d[i]);
            assert(parts[i] == d[i]);
        }
        if parse_parts(d).modifiers.shift {
            let i = choose|i: int| 0 <= i < d.len() && names_shift(#[trigger] d[i]);
            assert(parts[i] == d[i]);
        }
        if parse_parts(d).modifiers.meta {
            let i = choose|i: int| 0 <= i < d.len() && names_meta(#[trigger] d[i]);
            assert(parts[i] == d[i]);
        }
        if exists|i: int| 0 <= i < parts.len() && names_control(#[trigger] parts[i]) {
            let i = choose|i: int| 0 <= i < parts.len() && names_control(#[trigger] parts[i]);
            if i < d.len() {
                assert(d[i] == parts[i]);
            }
        }
        if exists|i: int| 0 <= i < parts.len() && names_alt(#[trigger] parts[i]) {
            let i = choose|i: int| 0 <= i < parts.len() && names_alt(#[trigger] parts[i]);
            if i < d.len() {
                assert(d[i] == parts[i]);
            }
        }
        if exists|i: int| 0 <= i < parts.len() && names_shift(#[trigger] parts[i]) {
            let i = choose|i: int| 0 <= i < parts.len() && names_shift(#[trigger] parts[i]);
            if i < d.len() {
                assert(d[i] == parts[i]);
            }
        }
        if exists|i: int| 0 <= i < parts.len() && names_meta(#[trigger] parts[i]) {
            let i = choose|i: int| 0 <= i < parts.len() && names_meta(#[trigger] parts[i]);
            if i < d.len() {
                assert(d[i] == parts[i]);
            }
        }
        if names_key(last) {
            assert(names_key(parts[parts.len() - 1]));
        } else {
            if let Some(k) = parse_parts(d).key {
                let i = choose|i: int|
                    0 <= i < d.len() && names_key(#[trigger] d[i]) && k == trim_spec(d[i]) && forall|j: int|
                        i < j < d.len() ==> !names_key(#[trigger] d[j]);
                assert(parts[i] == d[i]);
                assert forall|j: int| i < j < parts.len() implies !names_key(#[trigger] parts[j]) by {
                    if j < d.len() {
                        assert(d[j] == parts[j]);
                    }
                }
            }
            if exists|i: int| 0 <= i < parts.len() && names_key(#[trigger] parts[i]) {
                let i = choose|i: int| 0 <= i < parts.len() && names_key(#[trigger] parts[i]);
                assert(i < d.len());
                assert(d[i] == parts[i]);
            }
        }
    }
}

/// What a shortcut holds: each modifier is set exactly where one of its
/// `+`-separated parts names it (Control by `ctrl` or `control`, Alt by
/// `alt` or `option`, Shift by `shift`, Meta by `meta`, `cmd`, `command` or
/// `win`, in any case), and the key is the one that the last other part
/// names (the key named `A` where every part is a modifier).
#[verifier::spinoff_prover]
pub proof fn law_hotkey_parts(acc: Seq<char>)
    ensures
        ({
            let parts = split_spec(acc, '+');
            let h = hotkey_spec(acc);
            &&& h.modifiers.control <==> exists|i: int| 0 <= i < parts.len() && names_control(#[trigger] parts[i])
            &&& h.modifiers.alt <==> exists|i: int| 0 <= i < parts.len() && names_alt(#[trigger] parts[i])
            &&& h.modifiers.shift <==> exists|i: int| 0 <= i < parts.len() && names_shift(#[trigger] parts[i])
            &&& h.modifiers.meta <==> exists|i: int| 0 <= i < parts.len() && names_meta(#[trigger] parts[i])
            &&& (forall|i: int| 0 <= i < parts.len() ==> !names_key(#[trigger] parts[i])) ==> h.code == key_code_for(lowercase("A"@))
            &&& forall|i: int|
                0 <= i < parts.len() && names_key(#[trigger] parts[i]) && (forall|j: int|
                    i < j < parts.len() ==> !names_key(#[trigger] parts[j])) ==> h.code == key_code_for(
                    lowercase(trim_spec(parts[i])),
                )
        }),
{
    let parts = split_spec(acc, '+');
    lemma_parse_parts(parts);
}

/// Parses an accelerator in hotkey names; every text gives a shortcut.
pub fn parse_hotkey(acc: &str) -> (r: Result<HotKey, ()>)
    ensures
        r == Ok::<HotKey, ()>(hotkey_spec(acc@)),
{
    let v = chars_of(acc);
    let parts = split_char(v.as_slice(), '+');
    let mut modifiers = Modifiers { control: false, alt: false, shift: false, meta: false };
    let mut key: Option<Vec<char>> = None;
    let ghost all = split_spec(acc@, '+');
    let mut i: usize = 0;
    assert(all.take(0) =~= Seq::<Seq<char>>::empty());
    while i < parts.len()
        invariant
            0 <= i <= parts@.len(),
            views(parts@) == all,
            all == split_spec(acc@, '+'),
            ({
                let st = parse_parts(all.take(i as int));
                &&& modifiers == st.modifiers
                &&& match key { Some(k) => st.key == Some(k@), None => st.key is None }
            }),
        decreases parts@.len() - i,
    {
        assert(all.take(i as int + 1).drop_last() =~= all.take(i as int));
        assert(all.take(i as int + 1).last() == parts@[i as int]@);
        let part = trim(parts[i].as_slice());
        let lower = to_lowercase(part.as_slice());
        let l = lower.as_slice();
        if eq_str(l, "ctrl") || eq_str(l, "control") {
            modifiers.control = true;
        } else if eq_str(l, "alt") || eq_str(l, "option") {
            modifiers.alt = true;
        } else if eq_str(l, "shift") {
            modifiers.shift = true;
        } else if eq_str(l, "meta") || eq_str(l, "cmd") || eq_str(l, "command") || eq_str(l, "win") {
            modifiers.meta = true;
        } else {
            key = Some(part);
        }
        i = i + 1;
    }
    assert(all.take(parts@.len() as int) =~= all);
    let name = match key {
        Some(k) => k,
        None => chars_of("A"),
    };
    let lname = to_lowercase(name.as_slice());
    let code = key_code_of(lname.as_slice());
    Ok(HotKey { modifiers, code })
}

/// The accelerators that have a shortcut, each with the shortcut it was
/// given; each accelerator occurs once. Registering with the system is
/// done by the application between `hotkey_for` and `record`.
pub struct GlobalShortcutManager {
    registered: Vec<(String, HotKey)>,
}

/// The accelerator texts of registrations.
pub open spec fn accelerators(v: Seq<(String, HotKey)>) -> Seq<Seq<char>> {
    v.map_values(|e: (String, HotKey)| e.0@)
}

impl GlobalShortcutManager {
    #[verifier::type_invariant]
    spec fn accelerators_distinct(&self) -> bool {
        forall|i: int, j: int|
            0 <= i < j < self.registered@.len() ==> accelerators(self.registered@)[i] != accelerators(
                self.registered@,
            )[j]
    }

    /// The registered accelerators, in order of registration.
    pub closed spec fn accelerators(&self) -> Seq<Seq<char>> {
        accelerators(self.registered@)
    }

    /// The shortcut of a registered accelerator.
    pub closed spec fn shortcut_of(&self, acc: Seq<char>) -> Option<HotKey> {
        if exists|i: int| 0 <= i < self.registered@.len() && self.registered@[i].0@ == acc {
            Some(
                self.registered@[choose|i: int| 0 <= i < self.registered@.len() && self.registered@[i].0@ == acc].1,
            )
        } else {
            None
        }
    }

    /// No shortcuts.
    pub fn new() -> (r: GlobalShortcutManager)
        ensures
            r.accelerators() == Seq::<Seq<char>>::empty(),
    {
        let r = GlobalShortcutManager { registered: Vec::new() };
        assert(accelerators(r.registered@) =~= Seq::<Seq<char>>::empty());
        r
    }

    fn position(&self, acc: &str) -> (r: Option<usize>)
        ensures
            match r {
                Some(i) => i < self.registered@.len() && self.registered@[i as int].0@ == acc@
                    && self.accelerators().contains(acc@),
                None => !self.accelerators().contains(acc@),
            },
    {
        let a = chars_of(acc);
        let mut i: usize = 0;
        while i < self.registered.len()
            invariant
                0 <= i <= self.registered@.len(),
                a@ == acc@,
                forall|k: int| 0 <= k < i ==> self.registered@[k].0@ != acc@,
            decreases self.registered@.len() - i,
        {
            let k = chars_of(self.registered[i].0.as_str());
            if crate::text::seq_eq(k.as_slice(), a.as_slice()) {
                assert(self.accelerators()[i as int] == acc@);
                return Some(i);
            }
            i = i + 1;
        }
        proof {
            if self.accelerators().contains(acc@) {
                let j = choose|j: int| 0 <= j < self.accelerators().len() && self.accelerators()[j] == acc@;
                assert(self.registered@[j].0@ == acc@);
            }
        }
        None
    }

    /// Whether the accelerator has a shortcut.
    pub fn is_registered(&self, accelerator: &str) -> (r: bool)
        ensures
            r == self.accelerators().contains(accelerator@),
    {
        self.position(accelerator).is_some()
    }

    /// The registered accelerators.
    pub fn get_registered(&self) -> (r: Vec<String>)
        ensures
            crate::config::string_views(r@) == self.accelerators(),
    {
        let mut out: Vec<String> = Vec::new();
        let mut i: usize = 0;
        while i < self.registered.len()
            invariant
                0 <= i <= self.registered@.len(),
                crate::config::string_views(out@) == self.accelerators().take(i as int),
            decreases self.registered@.len() - i,
        {
            let ghost before = crate::config::string_views(out@);
            let x = owned(self.registered[i].0.as_str());
            out.push(x);
            assert(crate::config::string_views(out@) =~= before.push(x@));
            assert(self.accelerators().take(i + 1) =~= self.accelerators().take(i as int).push(
                self.accelerators()[i as int],
            ));
            i = i + 1;
        }
        assert(self.accelerators().take(self.registered@.len() as int) =~= self.accelerators());
        out
    }

    /// The shortcut to register with the system for an accelerator, or
    /// `None` where it already has one.
    pub fn hotkey_for(&self, accelerator: &str) -> (r: Option<HotKey>)
        ensures
            self.accelerators().contains(accelerator@) ==> r is None,
            !self.accelerators().contains(accelerator@) ==> r == Some(
                hotkey_spec(convert_accelerator_spec(accelerator@)),
            ),
    {
        if self.is_registered(accelerator) {
            return None;
        }
        let converted = convert_accelerator(accelerator);
        match parse_hotkey(converted.as_str()) {
            Ok(h) => Some(h),
            Err(()) => None,
        }
    }

    /// Records the shortcut the system accepted for an accelerator.
    pub fn record(&mut self, accelerator: &str, hotkey: HotKey)
        requires
            !old(self).accelerators().contains(accelerator@),
        ensures
            final(self).accelerators() == old(self).accelerators().push(accelerator@),
            final(self).shortcut_of(accelerator@) == Some(hotkey),
    {
        proof {
            use_type_invariant(&*self);
        }
        let ghost before = self.registered@;
        let mut regs: Vec<(String, HotKey)> = Vec::new();
        std::mem::swap(&mut regs, &mut self.registered);
        regs.push((owned(accelerator), hotkey));
        proof {
            let after = regs@;
            assert(accelerators(after) =~= accelerators(before).push(accelerator@));
            assert forall|i: int, j: int| 0 <= i < j < after.len() implies accelerators(after)[i] != accelerators(
                after,
            )[j] by {
                if j == before.len() {
                    assert(accelerators(before)[i] != accelerator@);
                } else {
                    assert(accelerators(after)[i] == accelerators(before)[i]);
                    assert(accelerators(after)[j] == accelerators(before)[j]);
                }
            }
        }
        self.registered = regs;
        proof {
            let n = before.len() as int;
            assert(self.registered@[n].0@ == accelerator@);
            let c = choose|i: int| 0 <= i < self.registered@.len() && self.registered@[i].0@ == accelerator@;
            if c != n {
                assert(accelerators(self.registered@)[c] == accelerators(self.registered@)[n]);
            }
        }
    }

    /// Removes an accelerator's shortcut; the shortcut to release with the
    /// system, where there was one.
    pub fn unregister(&mut self, accelerator: &str) -> (r: Option<HotKey>)
        ensures
            r == old(self).shortcut_of(accelerator@),
            !final(self).accelerators().contains(accelerator@),
            forall|a: Seq<char>| a != accelerator@ ==> (final(self).accelerators().contains(a)
                == old(self).accelerators().contains(a)),
    {
        proof {
            use_type_invariant(&*self);
        }
        match self.position(accelerator) {
            None => {
                proof {
                    if old(self).shortcut_of(accelerator@) is Some {
                        let i = choose|i: int|
                            0 <= i < self.registered@.len() && self.registered@[i].0@ == accelerator@;
                        assert(self.accelerators()[i] == accelerator@);
                    }
                }
                None
            },
            Some(i) => {
                let ghost before = self.registered@;
                proof {
                    let c = choose|k: int| 0 <= k < before.len() && before[k].0@ == accelerator@;
                    if c != i as int {
                        assert(accelerators(before)[c] == accelerators(before)[i as int]);
                    }
                }
                let mut regs: Vec<(String, HotKey)> = Vec::new();
                std::mem::swap(&mut regs, &mut self.registered);
                let (_, h) = regs.remove(i);
                proof {
                    let after = regs@;
                    assert(after =~= before.remove(i as int));
                    assert forall|a: int, b: int| 0 <= a < b < after.len() implies accelerators(after)[a]
                        != accelerators(after)[b] by {
                        let a2 = if a < i { a } else { a + 1 };
                        let b2 = if b < i { b } else { b + 1 };
                        assert(accelerators(after)[a] == accelerators(before)[a2]);
                        assert(accelerators(after)[b] == accelerators(before)[b2]);
                    }
                    assert(accelerators(before)[i as int] == accelerator@);
                    assert forall|x: Seq<char>| accelerators(after).contains(x) implies x != accelerator@
                        && accelerators(before).contains(x) by {
                        let k = choose|k: int| 0 <= k < accelerators(after).len() && accelerators(after)[k] == x;
                        let k2 = if k < i { k } else { k + 1 };
                        assert(accelerators(after)[k] == accelerators(before)[k2]);
                        if k2 < i {
                            assert(accelerators(before)[k2] != accelerators(before)[i as int]);
                        } else {
                            assert(accelerators(before)[i as int] != accelerators(before)[k2]);
                        }
                    }
                    assert forall|x: Seq<char>| x != accelerator@ && accelerators(before).contains(x) implies accelerators(
                        after,
                    ).contains(x) by {
                        let k = choose|k: int| 0 <= k < accelerators(before).len() && accelerators(before)[k] == x;
                        assert(k != i as int);
                        let k2 = if k < i { k } else { k - 1 };
                        assert(accelerators(after)[k2] == x);
                    }
                }
                self.registered = regs;
                Some(h)
            },
        }
    }

    /// The shortcuts, in order of registration (the `i`-th is that of the
    /// `i`-th accelerator).
    pub closed spec fn shortcuts(&self) -> Seq<HotKey> {
        self.registered@.map_values(|e: (String, HotKey)| e.1)
    }

    /// Removes every shortcut; the shortcuts to release with the system, in
    /// order of registration.
    pub fn unregister_all(&mut self) -> (r: Vec<HotKey>)
        ensures
            final(self).accelerators() == Seq::<Seq<char>>::empty(),
            r@ == old(self).shortcuts(),
            r@.len() == old(self).accelerators().len(),
    {
        let mut regs: Vec<(String, HotKey)> = Vec::new();
        std::mem::swap(&mut regs, &mut self.registered);
        let ghost before = regs@;
        let mut out: Vec<HotKey> = Vec::new();
        let mut i: usize = 0;
        while i < regs.len()
            invariant
                0 <= i <= regs@.len(),
                regs@ == before,
                out@.len() == i,
                forall|k: int| 0 <= k < i ==> out@[k] == before[k].1,
            decreases regs@.len() - i,
        {
            out.push(regs[i].1);
            i = i + 1;
        }
        assert(accelerators(self.registered@) =~= Seq::<Seq<char>>::empty());
        assert(out@ =~= before.map_values(|e: (String, HotKey)| e.1));
        out
    }
}

/// An accelerator that is recorded is registered and gives back its
/// shortcut; once unregistered it is not, and the others keep their state.
pub proof fn law_record_then_unregister(before: Seq<Seq<char>>, acc: Seq<char>, other: Seq<char>)
    requires
        !before.contains(acc),
        other != acc,
    ensures
        before.push(acc).contains(acc),
        before.push(acc).contains(other) == before.contains(other),
{
    if before.push(acc).contains(other) {
        let k = choose|k: int| 0 <= k < before.push(acc).len() && before.push(acc)[k] == other;
        assert(k < before.len());
        assert(before[k] == other);
    }
    if before.contains(other) {
        let k = choose|k: int| 0 <= k < before.len() && before[k] == other;
        assert(before.push(acc)[k] == other);
    }
    assert(before.push(acc)[before.len() as int] == acc);
}

} // verus!
