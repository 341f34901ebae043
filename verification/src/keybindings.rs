//! The keyboard bindings.
use vstd::prelude::*;

use crate::app::Message;
use crate::text::str_is;

verus! {

/// The named keys that have bindings; any other is `Other`.
#[derive(Debug, Clone, Copy, PartialEq, Eq, Structural)]
pub enum NamedKey {
    ArrowRight,
    ArrowLeft,
    ArrowUp,
    ArrowDown,
    Escape,
    F11,
    Space,
    Other,
}

/// A key press: the text it types, a named key, or a key of neither kind.
#[derive(Debug, Clone, PartialEq, Eq)]
pub enum Key {
    Character(String),
    Named(NamedKey),
    Unidentified,
}

/// The bindings of typed text when no modifier is held.
pub open spec fn character_binding(c: Seq<char>) -> Option<Message> {
    if c == seq!['q'] {
        Some(Message::Close)
    } else if c == seq!['f'] {
        Some(Message::ToggleFullscreen)
    } else if c == seq!['+'] || c == seq!['='] || c == seq!['i'] {
        Some(Message::ZoomIn)
    } else if c == seq!['-'] || c == seq!['o'] {
        Some(Message::ZoomOut)
    } else if c == seq!['1'] {
        Some(Message::ActualSize)
    } else if c == seq!['0'] {
        Some(Message::FitWindow)
    } else if c == seq!['r'] {
        Some(Message::ResetView)
    } else if c == seq![' '] {
        Some(Message::ToggleSlideshow)
    } else if c == seq!['t'] {
        Some(Message::AdjustSlideshowDelay(1))
    } else if c == seq!['T'] {
        Some(Message::AdjustSlideshowDelay(-1i64))
    } else if c == seq!['n'] || c == seq!['l'] {
        Some(Message::Next)
    } else if c == seq!['p'] || c == seq!['h'] {
        Some(Message::Prev)
    } else if c == seq!['g'] {
        Some(Message::GoToFirst)
    } else if c == seq!['G'] {
        Some(Message::GoToLast)
    } else {
        None
    }
}

/// The bindings of named keys when no modifier is held.
pub open spec fn named_binding(n: NamedKey) -> Option<Message> {
    match n {
        NamedKey::ArrowRight => Some(Message::Next),
        NamedKey::ArrowLeft => Some(Message::Prev),
        NamedKey::ArrowUp => Some(Message::ZoomIn),
        NamedKey::ArrowDown => Some(Message::ZoomOut),
        NamedKey::Escape => Some(Message::Close),
        NamedKey::F11 => Some(Message::ToggleFullscreen),
        NamedKey::Space => Some(Message::ToggleSlideshow),
        NamedKey::Other => None,
    }
}

/// The shift bindings of typed text: turning, flipping, resetting both.
pub open spec fn shifted_character_binding(c: Seq<char>) -> Option<Message> {
    if c == seq!['R'] {
        Some(Message::RotateCCW)
    } else if c == seq!['F'] {
        Some(Message::FlipVertical)
    } else if c == seq!['0'] {
        Some(Message::ResetTransform)
    } else {
        None
    }
}

/// The shift bindings of the arrows: panning by 50 pixels.
pub open spec fn shifted_named_binding(n: NamedKey) -> Option<Message> {
    match n {
        NamedKey::ArrowRight => Some(Message::Pan(50, 0)),
        NamedKey::ArrowLeft => Some(Message::Pan(-50i32, 0i32)),
        NamedKey::ArrowUp => Some(Message::Pan(0i32, -50i32)),
        NamedKey::ArrowDown => Some(Message::Pan(0, 50)),
        _ => None,
    }
}

/// The bindings that shift adds.
pub open spec fn shifted_binding(key: Key) -> Option<Message> {
    match key {
        Key::Character(c) => shifted_character_binding(c@),
        Key::Named(n) => shifted_named_binding(n),
        Key::Unidentified => None,
    }
}

/// The bindings when no modifier is held.
pub open spec fn plain_binding(key: Key) -> Option<Message> {
    match key {
        Key::Character(c) => character_binding(c@),
        Key::Named(n) => named_binding(n),
        Key::Unidentified => None,
    }
}

/// The command a key press gives: none while a modifier other than shift
/// is held; with shift, its shift binding where it has one; else the plain
/// binding (of the text typed, which shift may have capitalised).
pub open spec fn key_binding(key: Key, shift: bool, no_other_mods: bool) -> Option<Message> {
    if !no_other_mods {
        None
    } else if shift && shifted_binding(key) is Some {
        shifted_binding(key)
    } else {
        plain_binding(key)
    }
}

/// The shift bindings of typed text.
fn shifted_character(c: &str) -> (r: Option<Message>)
    ensures
        r == shifted_character_binding(c@),
{
    proof {
        reveal_strlit("R");
        reveal_strlit("F");
        reveal_strlit("0");
    }
    assert(seq!['R'] =~= "R"@);
    assert(seq!['F'] =~= "F"@);
    assert(seq!['0'] =~= "0"@);
    if str_is(c, "R") {
        Some(Message::RotateCCW)
    } else if str_is(c, "F") {
        Some(Message::FlipVertical)
    } else if str_is(c, "0") {
        Some(Message::ResetTransform)
    } else {
        None
    }
}

/// The plain bindings of typed text.
fn plain_character(c: &str) -> (r: Option<Message>)
    ensures
        r == character_binding(c@),
{
    proof {
        reveal_strlit("q");
        reveal_strlit("f");
        reveal_strlit("+");
        reveal_strlit("=");
        reveal_strlit("i");
        reveal_strlit("-");
        reveal_strlit("o");
        reveal_strlit("1");
        reveal_strlit("0");
        reveal_strlit("r");
        reveal_strlit(" ");
        reveal_strlit("t");
        reveal_strlit("T");
        reveal_strlit("n");
        reveal_strlit("l");
        reveal_strlit("p");
        reveal_strlit("h");
        reveal_strlit("g");
        reveal_strlit("G");
    }
    assert(seq!['q'] =~= "q"@);
    assert(seq!['f'] =~= "f"@);
    assert(seq!['+'] =~= "+"@);
    assert(seq!['='] =~= "="@);
    assert(seq!['i'] =~= "i"@);
    assert(seq!['-'] =~= "-"@);
    assert(seq!['o'] =~= "o"@);
    assert(seq!['1'] =~= "1"@);
    assert(seq!['0'] =~= "0"@);
    assert(seq!['r'] =~= "r"@);
    assert(seq![' '] =~= " "@);
    assert(seq!['t'] =~= "t"@);
    assert(seq!['T'] =~= "T"@);
    assert(seq!['n'] =~= "n"@);
    assert(seq!['l'] =~= "l"@);
    assert(seq!['p'] =~= "p"@);
    assert(seq!['h'] =~= "h"@);
    assert(seq!['g'] =~= "g"@);
    assert(seq!['G'] =~= "G"@);
    if str_is(c, "q") {
        Some(Message::Close)
    } else if str_is(c, "f") {
        Some(Message::ToggleFullscreen)
    } else if str_is(c, "+") || str_is(c, "=") || str_is(c, "i") {
        Some(Message::ZoomIn)
    } else if str_is(c, "-") || str_is(c, "o") {
        Some(Message::ZoomOut)
    } else if str_is(c, "1") {
        Some(Message::ActualSize)
    } else if str_is(c, "0") {
        Some(Message::FitWindow)
    } else if str_is(c, "r") {
        Some(Message::ResetView)
    } else if str_is(c, " ") {
        Some(Message::ToggleSlideshow)
    } else if str_is(c, "t") {
        Some(Message::AdjustSlideshowDelay(1))
    } else if str_is(c, "T") {
        Some(Message::AdjustSlideshowDelay(-1))
    } else if str_is(c, "n") || str_is(c, "l") {
        Some(Message::Next)
    } else if str_is(c, "p") || str_is(c, "h") {
        Some(Message::Prev)
    } else if str_is(c, "g") {
        Some(Message::GoToFirst)
    } else if str_is(c, "G") {
        Some(Message::GoToLast)
    } else {
        None
    }
}

/// The command that a key press gives, if any. `shift` tells whether shift
/// is held and `no_other_mods` whether no modifier but shift is held;
/// control is not consulted on its own.
pub fn handle_key_event(key: &Key, _ctrl: bool, shift: bool, no_other_mods: bool) -> (r: Option<Message>)
    ensures
        r == key_binding(*key, shift, no_other_mods),
{
    if !no_other_mods {
        return None;
    }
    if shift {
        let shifted = match key {
            Key::Character(c) => shifted_character(c.as_str()),
            Key::Named(n) => match n {
                NamedKey::ArrowRight => Some(Message::Pan(50, 0)),
                NamedKey::ArrowLeft => Some(Message::Pan(-50, 0)),
                NamedKey::ArrowUp => Some(Message::Pan(0, -50)),
                NamedKey::ArrowDown => Some(Message::Pan(0, 50)),
                _ => None,
            },
            Key::Unidentified => None,
        };
        if shifted.is_some() {
            return shifted;
        }
    }
    match key {
        Key::Character(c) => plain_character(c.as_str()),
        Key::Named(n) => match n {
            NamedKey::ArrowRight => Some(Message::Next),
            NamedKey::ArrowLeft => Some(Message::Prev),
            NamedKey::ArrowUp => Some(Message::ZoomIn),
            NamedKey::ArrowDown => Some(Message::ZoomOut),
            NamedKey::Escape => Some(Message::Close),
            NamedKey::F11 => Some(Message::ToggleFullscreen),
            NamedKey::Space => Some(Message::ToggleSlideshow),
            NamedKey::Other => None,
        },
        Key::Unidentified => None,
    }
}

} // verus!
