//! Keyboard shortcuts, and the text that names one.

use vstd::prelude::*;

use crate::text::{
    ascii_lower, ascii_lowercase, ascii_upper, ascii_uppercase, is_ascii_text, is_white_space,
    lemma_ascii_from_lowercase, lemma_lowercase_twice, lemma_same_but_for_case, lowercase, split,
    split_at_each, trim, trimmed, trimmed_end, trimmed_start, uppercase,
};

verus! {

/// The shortcut that is used when none is set.
pub const DEFAULT_SHORTCUT: &'static str = "CommandOrControl+Shift+S";

/// A key that a shortcut can end in.
#[derive(Debug, Clone, Copy, PartialEq, Eq, Structural)]
pub enum Code {
    KeyA,
    KeyB,
    KeyC,
    KeyD,
    KeyE,
    KeyF,
    KeyG,
    KeyH,
    KeyI,
    KeyJ,
    KeyK,
    KeyL,
    KeyM,
    KeyN,
    KeyO,
    KeyP,
    KeyQ,
    KeyR,
    KeyS,
    KeyT,
    KeyU,
    KeyV,
    KeyW,
    KeyX,
    KeyY,
    KeyZ,
    Digit0,
    Digit1,
    Digit2,
    Digit3,
    Digit4,
    Digit5,
    Digit6,
    Digit7,
    Digit8,
    Digit9,
    F1,
    F2,
    F3,
    F4,
    F5,
    F6,
    F7,
    F8,
    F9,
    F10,
    F11,
    F12,
    Space,
    Enter,
}

/// A key that is held down together with others.
#[derive(Debug, Clone, Copy, PartialEq, Eq, Structural)]
pub enum Modifier {
    Control,
    Alt,
    Shift,
    Super,
}

/// The keys that are held down for a shortcut.
#[derive(Debug, Clone, Copy, PartialEq, Eq, Structural)]
pub struct Modifiers {
    pub control: bool,
    pub alt: bool,
    pub shift: bool,
    pub super_key: bool,
}

/// A shortcut: a key, and what is held down with it.
#[derive(Debug, Clone, Copy, PartialEq, Eq, Structural)]
pub struct Shortcut {
    pub mods: Modifiers,
    pub key: Code,
}

/// One part of the text of a shortcut: a modifier, or the name of a key, which
/// may be of no known key.
#[derive(Debug, Clone, Copy, PartialEq, Eq, Structural)]
pub enum Part {
    Modifier(Modifier),
    Key(Option<Code>),
}

/// The modifier with the given name, in lower case.
pub open spec fn modifier_named(lower: Seq<char>) -> Option<Modifier> {
    if lower == "ctrl"@ || lower == "control"@ || lower == "commandorcontrol"@ || lower == "cmdorctrl"@ {
        Some(Modifier::Control)
    } else if lower == "alt"@ || lower == "option"@ {
        Some(Modifier::Alt)
    } else if lower == "shift"@ {
        Some(Modifier::Shift)
    } else if lower == "super"@ || lower == "meta"@ || lower == "cmd"@ || lower == "command"@ || lower == "win"@ {
        Some(Modifier::Super)
    } else {
        None
    }
}

/// The modifier with the given name, in lower case.
pub fn modifier_of(lower: &str) -> (modifier: Option<Modifier>)
    ensures
        modifier == modifier_named(lower@),
{
    if *lower == *"ctrl" || *lower == *"control" || *lower == *"commandorcontrol" || *lower == *"cmdorctrl" {
        Some(Modifier::Control)
    } else if *lower == *"alt" || *lower == *"option" {
        Some(Modifier::Alt)
    } else if *lower == *"shift" {
        Some(Modifier::Shift)
    } else if *lower == *"super" || *lower == *"meta" || *lower == *"cmd" || *lower == *"command" || *lower == *"win" {
        Some(Modifier::Super)
    } else {
        None
    }
}

/// The name of a key, in upper case.
pub open spec fn key_name(code: Code) -> Seq<char> {
    match code {
        Code::KeyA => "A"@,
        Code::KeyB => "B"@,
        Code::KeyC => "C"@,
        Code::KeyD => "D"@,
        Code::KeyE => "E"@,
        Code::KeyF => "F"@,
        Code::KeyG => "G"@,
        Code::KeyH => "H"@,
        Code::KeyI => "I"@,
        Code::KeyJ => "J"@,
        Code::KeyK => "K"@,
        Code::KeyL => "L"@,
        Code::KeyM => "M"@,
        Code::KeyN => "N"@,
        Code::KeyO => "O"@,
        Code::KeyP => "P"@,
        Code::KeyQ => "Q"@,
        Code::KeyR => "R"@,
        Code::KeyS => "S"@,
        Code::KeyT => "T"@,
        Code::KeyU => "U"@,
        Code::KeyV => "V"@,
        Code::KeyW => "W"@,
        Code::KeyX => "X"@,
        Code::KeyY => "Y"@,
        Code::KeyZ => "Z"@,
        Code::Digit0 => "0"@,
        Code::Digit1 => "1"@,
        Code::Digit2 => "2"@,
        Code::Digit3 => "3"@,
        Code::Digit4 => "4"@,
        Code::Digit5 => "5"@,
        Code::Digit6 => "6"@,
        Code::Digit7 => "7"@,
        Code::Digit8 => "8"@,
        Code::Digit9 => "9"@,
        Code::F1 => "F1"@,
        Code::F2 => "F2"@,
        Code::F3 => "F3"@,
        Code::F4 => "F4"@,
        Code::F5 => "F5"@,
        Code::F6 => "F6"@,
        Code::F7 => "F7"@,
        Code::F8 => "F8"@,
        Code::F9 => "F9"@,
        Code::F10 => "F10"@,
        Code::F11 => "F11"@,
        Code::F12 => "F12"@,
        Code::Space => "SPACE"@,
        Code::Enter => "ENTER"@,
    }
}

/// The key with the given name, in upper case. Two keys have a second name.
pub open spec fn code_named(upper: Seq<char>) -> Option<Code> {
    if upper == "A"@ {
        Some(Code::KeyA)
    } else if upper == "B"@ {
        Some(Code::KeyB)
    } else if upper == "C"@ {
        Some(Code::KeyC)
    } else if upper == "D"@ {
        Some(Code::KeyD)
    } else if upper == "E"@ {
        Some(Code::KeyE)
    } else if upper == "F"@ {
        Some(Code::KeyF)
    } else if upper == "G"@ {
        Some(Code::KeyG)
    } else if upper == "H"@ {
        Some(Code::KeyH)
    } else if upper == "I"@ {
        Some(Code::KeyI)
    } else if upper == "J"@ {
        Some(Code::KeyJ)
    } else if upper == "K"@ {
        Some(Code::KeyK)
    } else if upper == "L"@ {
        Some(Code::KeyL)
    } else if upper == "M"@ {
        Some(Code::KeyM)
    } else if upper == "N"@ {
        Some(Code::KeyN)
    } else if upper == "O"@ {
        Some(Code::KeyO)
    } else if upper == "P"@ {
        Some(Code::KeyP)
    } else if upper == "Q"@ {
        Some(Code::KeyQ)
    } else if upper == "R"@ {
        Some(Code::KeyR)
    } else if upper == "S"@ {
        Some(Code::KeyS)
    } else if upper == "T"@ {
        Some(Code::KeyT)
    } else if upper == "U"@ {
        Some(Code::KeyU)
    } else if upper == "V"@ {
        Some(Code::KeyV)
    } else if upper == "W"@ {
        Some(Code::KeyW)
    } else if upper == "X"@ {
        Some(Code::KeyX)
    } else if upper == "Y"@ {
        Some(Code::KeyY)
    } else if upper == "Z"@ {
        Some(Code::KeyZ)
    } else if upper == "0"@ {
        Some(Code::Digit0)
    } else if upper == "1"@ {
        Some(Code::Digit1)
    } else if upper == "2"@ {
        Some(Code::Digit2)
    } else if upper == "3"@ {
        Some(Code::Digit3)
    } else if upper == "4"@ {
        Some(Code::Digit4)
    } else if upper == "5"@ {
        Some(Code::Digit5)
    } else if upper == "6"@ {
        Some(Code::Digit6)
    } else if upper == "7"@ {
        Some(Code::Digit7)
    } else if upper == "8"@ {
        Some(Code::Digit8)
    } else if upper == "9"@ {
        Some(Code::Digit9)
    } else if upper == "F1"@ {
        Some(Code::F1)
    } else if upper == "F2"@ {
        Some(Code::F2)
    } else if upper == "F3"@ {
        Some(Code::F3)
    } else if upper == "F4"@ {
        Some(Code::F4)
    } else if upper == "F5"@ {
        Some(Code::F5)
    } else if upper == "F6"@ {
        Some(Code::F6)
    } else if upper == "F7"@ {
        Some(Code::F7)
    } else if upper == "F8"@ {
        Some(Code::F8)
    } else if upper == "F9"@ {
        Some(Code::F9)
    } else if upper == "F10"@ {
        Some(Code::F10)
    } else if upper == "F11"@ {
        Some(Code::F11)
    } else if upper == "F12"@ {
        Some(Code::F12)
    } else if upper == "SPACE"@ || upper == "SPC"@ {
        Some(Code::Space)
    } else if upper == "ENTER"@ || upper == "RETURN"@ {
        Some(Code::Enter)
    } else {
        None
    }
}

/// The key with the given name, in upper case.
pub fn code_of(upper: &str) -> (code: Option<Code>)
    ensures
        code == code_named(upper@),
{
    if *upper == *"A" {
        Some(Code::KeyA)
    } else if *upper == *"B" {
        Some(Code::KeyB)
    } else if *upper == *"C" {
        Some(Code::KeyC)
    } else if *upper == *"D" {
        Some(Code::KeyD)
    } else if *upper == *"E" {
        Some(Code::KeyE)
    } else if *upper == *"F" {
        Some(Code::KeyF)
    } else if *upper == *"G" {
        Some(Code::KeyG)
    } else if *upper == *"H" {
        Some(Code::KeyH)
    } else if *upper == *"I" {
        Some(Code::KeyI)
    } else if *upper == *"J" {
        Some(Code::KeyJ)
    } else if *upper == *"K" {
        Some(Code::KeyK)
    } else if *upper == *"L" {
        Some(Code::KeyL)
    } else if *upper == *"M" {
        Some(Code::KeyM)
    } else if *upper == *"N" {
        Some(Code::KeyN)
    } else if *upper == *"O" {
        Some(Code::KeyO)
    } else if *upper == *"P" {
        Some(Code::KeyP)
    } else if *upper == *"Q" {
        Some(Code::KeyQ)
    } else if *upper == *"R" {
        Some(Code::KeyR)
    } else if *upper == *"S" {
        Some(Code::KeyS)
    } else if *upper == *"T" {
        Some(Code::KeyT)
    } else if *upper == *"U" {
        Some(Code::KeyU)
    } else if *upper == *"V" {
        Some(Code::KeyV)
    } else if *upper == *"W" {
        Some(Code::KeyW)
    } else if *upper == *"X" {
        Some(Code::KeyX)
    } else if *upper == *"Y" {
        Some(Code::KeyY)
    } else if *upper == *"Z" {
        Some(Code::KeyZ)
    } else if *upper == *"0" {
        Some(Code::Digit0)
    } else if *upper == *"1" {
        Some(Code::Digit1)
    } else if *upper == *"2" {
        Some(Code::Digit2)
    } else if *upper == *"3" {
        Some(Code::Digit3)
    } else if *upper == *"4" {
        Some(Code::Digit4)
    } else if *upper == *"5" {
        Some(Code::Digit5)
    } else if *upper == *"6" {
        Some(Code::Digit6)
    } else if *upper == *"7" {
        Some(Code::Digit7)
    } else if *upper == *"8" {
        Some(Code::Digit8)
    } else if *upper == *"9" {
        Some(Code::Digit9)
    } else if *upper == *"F1" {
        Some(Code::F1)
    } else if *upper == *"F2" {
        Some(Code::F2)
    } else if *upper == *"F3" {
        Some(Code::F3)
    } else if *upper == *"F4" {
        Some(Code::F4)
    } else if *upper == *"F5" {
        Some(Code::F5)
    } else if *upper == *"F6" {
        Some(Code::F6)
    } else if *upper == *"F7" {
        Some(Code::F7)
    } else if *upper == *"F8" {
        Some(Code::F8)
    } else if *upper == *"F9" {
        Some(Code::F9)
    } else if *upper == *"F10" {
        Some(Code::F10)
    } else if *upper == *"F11" {
        Some(Code::F11)
    } else if *upper == *"F12" {
        Some(Code::F12)
    } else if *upper == *"SPACE" || *upper == *"SPC" {
        Some(Code::Space)
    } else if *upper == *"ENTER" || *upper == *"RETURN" {
        Some(Code::Enter)
    } else {
        None
    }
}

/// The key with the given name, in whatever letter case.
pub fn code_from_name(name: &str) -> (code: Option<Code>)
    ensures
        code == code_named(uppercase(name@)),
        is_ascii_text(name@) ==> code == code_named(ascii_uppercase(name@)),
        forall|other: Seq<char>|
            ascii_lowercase(other) == ascii_lowercase(name@) ==> code == code_named(
                #[trigger] uppercase(other),
            ),
{
    let upper = name.to_uppercase();
    proof {
        assert forall|other: Seq<char>|
            ascii_lowercase(other) == ascii_lowercase(name@) implies upper@
            == #[trigger] uppercase(other) by {
            lemma_same_but_for_case(other, name@);
        }
    }
    code_of(upper.as_str())
}

/// What a part of the text of a shortcut is, given in lower and in upper case.
pub open spec fn part_named(lower: Seq<char>, upper: Seq<char>) -> Part {
    match modifier_named(lower) {
        Some(modifier) => Part::Modifier(modifier),
        None => Part::Key(code_named(upper)),
    }
}

/// The modifier is one of the parts.
pub open spec fn holds(parts: Seq<Part>, modifier: Modifier) -> bool {
    parts.contains(Part::Modifier(modifier))
}

/// The modifiers among the parts.
pub open spec fn held(parts: Seq<Part>) -> Modifiers {
    Modifiers {
        control: holds(parts, Modifier::Control),
        alt: holds(parts, Modifier::Alt),
        shift: holds(parts, Modifier::Shift),
        super_key: holds(parts, Modifier::Super),
    }
}

/// The key that the last part without a modifier names.
pub open spec fn last_key(parts: Seq<Part>) -> Option<Code>
    decreases parts.len(),
{
    if parts.len() == 0 {
        None
    } else {
        match parts.last() {
            Part::Modifier(_) => last_key(parts.drop_last()),
            Part::Key(code) => code,
        }
    }
}

/// The shortcut that the parts make: all their modifiers, and the last key.
/// There is none if the last part that is no modifier names no known key.
pub open spec fn combined(parts: Seq<Part>) -> Option<Shortcut> {
    match last_key(parts) {
        Some(key) => Some(Shortcut { mods: held(parts), key }),
        None => None,
    }
}

/// The parts of the text of a shortcut: what stands between the plus signs,
/// without white space around it, read by the given rules for letter case.
pub open spec fn parts_by(
    text: Seq<char>,
    lower: spec_fn(Seq<char>) -> Seq<char>,
    upper: spec_fn(Seq<char>) -> Seq<char>,
) -> Seq<Part> {
    split_at_each(text, '+').map_values(
        |piece: Seq<char>| part_named(lower(trimmed(piece)), upper(trimmed(piece))),
    )
}

/// The parts of the text of a shortcut, in whatever letter case.
pub open spec fn parts_of(text: Seq<char>) -> Seq<Part> {
    parts_by(text, |piece: Seq<char>| lowercase(piece), |piece: Seq<char>| uppercase(piece))
}

/// The parts of the text of a shortcut, where only ASCII letters have a case.
pub open spec fn ascii_parts_of(text: Seq<char>) -> Seq<Part> {
    parts_by(
        text,
        |piece: Seq<char>| ascii_lowercase(piece),
        |piece: Seq<char>| ascii_uppercase(piece),
    )
}

/// The names that stand between the plus signs of a text: without white space
/// around them, and in small ASCII letters.
pub open spec fn names_in(text: Seq<char>) -> Seq<Seq<char>> {
    split_at_each(text, '+').map_values(|piece: Seq<char>| ascii_lowercase(trimmed(piece)))
}

/// What a name is whose ASCII letters are small: a modifier if it is the name
/// of one as it stands, and otherwise what it is in lower and in upper case.
pub open spec fn part_read(name: Seq<char>) -> Part {
    match modifier_named(name) {
        Some(modifier) => Part::Modifier(modifier),
        None => part_named(lowercase(name), uppercase(name)),
    }
}

/// The parts of the text of a shortcut, by the names in it alone.
pub open spec fn parts_by_name(text: Seq<char>) -> Seq<Part> {
    names_in(text).map_values(|name: Seq<char>| part_read(name))
}

/// Puts the parts of a shortcut together.
pub fn combine(parts: &Vec<Part>) -> (shortcut: Option<Shortcut>)
    ensures
        shortcut == combined(parts@),
{
    let mut mods = Modifiers { control: false, alt: false, shift: false, super_key: false };
    let mut key: Option<Code> = None;
    let mut at: usize = 0;
    while at < parts.len()
        invariant
            at <= parts.len(),
            mods == held(parts@.take(at as int)),
            key == last_key(parts@.take(at as int)),
        decreases parts.len() - at,
    {
        let ghost head = parts@.take(at + 1);
        proof {
            assert(head.drop_last() == parts@.take(at as int));
            assert(head.last() == parts@[at as int]);
            lemma_one_more_part(parts@.take(at as int), parts@[at as int]);
            assert(head == parts@.take(at as int).push(parts@[at as int]));
        }
        match parts[at] {
            Part::Modifier(Modifier::Control) => mods.control = true,
            Part::Modifier(Modifier::Alt) => mods.alt = true,
            Part::Modifier(Modifier::Shift) => mods.shift = true,
            Part::Modifier(Modifier::Super) => mods.super_key = true,
            Part::Key(code) => key = code,
        }
        at += 1;
    }
    assert(parts@.take(parts@.len() as int) == parts@);
    match key {
        Some(key) => Some(Shortcut { mods, key }),
        None => None,
    }
}

/// What a part of the text of a shortcut is, in whatever letter case.
fn read_part(text: &str) -> (part: Part)
    ensures
        part == part_named(lowercase(text@), uppercase(text@)),
        is_ascii_text(text@) ==> part == part_named(
            ascii_lowercase(text@),
            ascii_uppercase(text@),
        ),
        part == part_read(ascii_lowercase(text@)),
{
    let lower = text.to_lowercase();
    proof {
        let name = ascii_lowercase(text@);
        lemma_lowercase_twice(text@);
        assert(lower@ == lowercase(name));
        if modifier_named(name) is Some {
            lemma_modifier_names_are_ascii(name);
            lemma_ascii_from_lowercase(text@);
        }
    }
    match modifier_of(lower.as_str()) {
        Some(modifier) => Part::Modifier(modifier),
        None => Part::Key(code_from_name(text)),
    }
}

/// The shortcut that a text like `CommandOrControl+Shift+S` names: modifiers
/// and the name of a key with plus signs between them, in whatever letter case
/// and with or without white space around them.
pub fn parse_shortcut(text: &str) -> (shortcut: Option<Shortcut>)
    ensures
        shortcut == combined(parts_of(text@)),
        shortcut == combined(parts_by_name(text@)),
        is_ascii_text(text@) ==> shortcut == combined(ascii_parts_of(text@)),
{
    let pieces = split(text, '+');
    let ghost views = pieces@.map_values(|piece: String| piece@);
    let mut parts: Vec<Part> = Vec::new();
    let mut at: usize = 0;
    proof {
        lemma_pieces_are_ascii(text@, '+');
    }
    while at < pieces.len()
        invariant
            at <= pieces.len(),
            views == split_at_each(text@, '+'),
            views == pieces@.map_values(|piece: String| piece@),
            is_ascii_text(text@) ==> forall|i: int|
                0 <= i < views.len() ==> is_ascii_text(#[trigger] views[i]),
            parts@ == parts_of(text@).take(at as int),
            parts@ == parts_by_name(text@).take(at as int),
            is_ascii_text(text@) ==> parts@ == ascii_parts_of(text@).take(at as int),
        decreases pieces.len() - at,
    {
        assert(views[at as int] == pieces@[at as int]@);
        proof {
            if is_ascii_text(text@) {
                lemma_trimmed_is_ascii(views[at as int]);
            }
        }
        let part = read_part(trim(pieces[at].as_str()).as_str());
        parts.push(part);
        assert(parts@ == parts_of(text@).take(at + 1));
        assert(names_in(text@)[at as int] == ascii_lowercase(trimmed(views[at as int])));
        assert(parts@ == parts_by_name(text@).take(at + 1));
        assert(is_ascii_text(text@) ==> parts@ == ascii_parts_of(text@).take(at + 1));
        at += 1;
    }
    assert(parts@ == parts_of(text@));
    assert(parts@ == parts_by_name(text@));
    assert(is_ascii_text(text@) ==> parts@ == ascii_parts_of(text@));
    combine(&parts)
}

/// The names of modifiers are ASCII text.
proof fn lemma_modifier_names_are_ascii(name: Seq<char>)
    requires
        modifier_named(name) is Some,
    ensures
        is_ascii_text(name),
{
    reveal_strlit("ctrl");
    reveal_strlit("control");
    reveal_strlit("commandorcontrol");
    reveal_strlit("cmdorctrl");
    reveal_strlit("alt");
    reveal_strlit("option");
    reveal_strlit("shift");
    reveal_strlit("super");
    reveal_strlit("meta");
    reveal_strlit("cmd");
    reveal_strlit("command");
    reveal_strlit("win");
}

proof fn lemma_one_more_part(parts: Seq<Part>, part: Part)
    ensures
        forall|modifier: Modifier| #[trigger]
            holds(parts.push(part), modifier) == (holds(parts, modifier) || part
                == Part::Modifier(modifier)),
{
    assert forall|modifier: Modifier| #[trigger]
        holds(parts.push(part), modifier) == (holds(parts, modifier) || part == Part::Modifier(
            modifier,
        )) by {
        let all = parts.push(part);
        let wanted = Part::Modifier(modifier);
        if parts.contains(wanted) {
            let i = choose|i: int| 0 <= i < parts.len() && parts[i] == wanted;
            assert(all[i] == wanted);
        }
        if part == wanted {
            assert(all[parts.len() as int] == wanted);
        }
        if all.contains(wanted) && part != wanted {
            let i = choose|i: int| 0 <= i < all.len() && all[i] == wanted;
            assert(parts[i] == wanted);
        }
    }
}

proof fn lemma_pieces_are_ascii(text: Seq<char>, separator: char)
    ensures
        split_at_each(text, separator).len() > 0,
        is_ascii_text(text) ==> forall|i: int|
            0 <= i < split_at_each(text, separator).len() ==> is_ascii_text(
                #[trigger] split_at_each(text, separator)[i],
            ),
    decreases text.len(),
{
    if text.len() > 0 {
        let init = text.drop_last();
        lemma_pieces_are_ascii(init, separator);
        if is_ascii_text(text) {
            assert forall|i: int| 0 <= i < init.len() implies (#[trigger] init[i] as u32)
                < 0x80 by {
                assert(init[i] == text[i]);
            }
            let before = split_at_each(init, separator);
            assert(is_ascii_text(before[before.len() - 1]));
            assert((text[text.len() - 1] as u32) < 0x80);
            assert(is_ascii_text(before.last().push(text.last())));
        }
    }
}

proof fn lemma_trimmed_is_ascii(text: Seq<char>)
    requires
        is_ascii_text(text),
    ensures
        is_ascii_text(trimmed(text)),
{
    lemma_trimmed_end_is_ascii(text);
    lemma_trimmed_start_is_ascii(trimmed_end(text));
}

proof fn lemma_trimmed_end_is_ascii(text: Seq<char>)
    requires
        is_ascii_text(text),
    ensures
        is_ascii_text(trimmed_end(text)),
    decreases text.len(),
{
    if text.len() > 0 && is_white_space(text.last()) {
        let init = text.drop_last();
        assert forall|i: int| 0 <= i < init.len() implies (#[trigger] init[i] as u32) < 0x80 by {
            assert(init[i] == text[i]);
        }
        lemma_trimmed_end_is_ascii(init);
    }
}

proof fn lemma_trimmed_start_is_ascii(text: Seq<char>)
    requires
        is_ascii_text(text),
    ensures
        is_ascii_text(trimmed_start(text)),
    decreases text.len(),
{
    if text.len() > 0 && is_white_space(text.first()) {
        let tail = text.drop_first();
        assert forall|i: int| 0 <= i < tail.len() implies (#[trigger] tail[i] as u32) < 0x80 by {
            assert(tail[i] == text[i + 1]);
        }
        lemma_trimmed_start_is_ascii(tail);
    }
}

/// The name of a key denotes that key, in capitals or digits only.
proof fn lemma_key_names(code: Code)
    ensures
        code_named(key_name(code)) == Some(code),
        1 <= key_name(code).len() <= 5,
        key_name(code).len() != 4,
        forall|i: int|
            0 <= i < key_name(code).len() ==> ('A' <= #[trigger] key_name(code)[i] <= 'Z' || '0'
                <= key_name(code)[i] <= '9'),
        key_name(code).len() == 3 ==> '0' <= key_name(code)[1] <= '9',
        key_name(code).len() == 5 ==> key_name(code)[1] != 'H' && key_name(code)[1] != 'U',
        code_named("SPC"@) == Some(Code::Space),
        code_named("RETURN"@) == Some(Code::Enter),
{
    reveal_strlit("A");
    assert("A"@.len() == 1 && "A"@[0] == 'A');
    reveal_strlit("B");
    assert("B"@.len() == 1 && "B"@[0] == 'B');
    reveal_strlit("C");
    assert("C"@.len() == 1 && "C"@[0] == 'C');
    reveal_strlit("D");
    assert("D"@.len() == 1 && "D"@[0] == 'D');
    reveal_strlit("E");
    assert("E"@.len() == 1 && "E"@[0] == 'E');
    reveal_strlit("F");
    assert("F"@.len() == 1 && "F"@[0] == 'F');
    reveal_strlit("G");
    assert("G"@.len() == 1 && "G"@[0] == 'G');
    reveal_strlit("H");
    assert("H"@.len() == 1 && "H"@[0] == 'H');
    reveal_strlit("I");
    assert("I"@.len() == 1 && "I"@[0] == 'I');
    reveal_strlit("J");
    assert("J"@.len() == 1 && "J"@[0] == 'J');
    reveal_strlit("K");
    assert("K"@.len() == 1 && "K"@[0] == 'K');
    reveal_strlit("L");
    assert("L"@.len() == 1 && "L"@[0] == 'L');
    reveal_strlit("M");
    assert("M"@.len() == 1 && "M"@[0] == 'M');
    reveal_strlit("N");
    assert("N"@.len() == 1 && "N"@[0] == 'N');
    reveal_strlit("O");
    assert("O"@.len() == 1 && "O"@[0] == 'O');
    reveal_strlit("P");
    assert("P"@.len() == 1 && "P"@[0] == 'P');
    reveal_strlit("Q");
    assert("Q"@.len() == 1 && "Q"@[0] == 'Q');
    reveal_strlit("R");
    assert("R"@.len() == 1 && "R"@[0] == 'R');
    reveal_strlit("S");
    assert("S"@.len() == 1 && "S"@[0] == 'S');
    reveal_strlit("T");
    assert("T"@.len() == 1 && "T"@[0] == 'T');
    reveal_strlit("U");
    assert("U"@.len() == 1 && "U"@[0] == 'U');
    reveal_strlit("V");
    assert("V"@.len() == 1 && "V"@[0] == 'V');
    reveal_strlit("W");
    assert("W"@.len() == 1 && "W"@[0] == 'W');
    reveal_strlit("X");
    assert("X"@.len() == 1 && "X"@[0] == 'X');
    reveal_strlit("Y");
    assert("Y"@.len() == 1 && "Y"@[0] == 'Y');
    reveal_strlit("Z");
    assert("Z"@.len() == 1 && "Z"@[0] == 'Z');
    reveal_strlit("0");
    assert("0"@.len() == 1 && "0"@[0] == '0');
    reveal_strlit("1");
    assert("1"@.len() == 1 && "1"@[0] == '1');
    reveal_strlit("2");
    assert("2"@.len() == 1 && "2"@[0] == '2');
    reveal_strlit("3");
    assert("3"@.len() == 1 && "3"@[0] == '3');
    reveal_strlit("4");
    assert("4"@.len() == 1 && "4"@[0] == '4');
    reveal_strlit("5");
    assert("5"@.len() == 1 && "5"@[0] == '5');
    reveal_strlit("6");
    assert("6"@.len() == 1 && "6"@[0] == '6');
    reveal_strlit("7");
    assert("7"@.len() == 1 && "7"@[0] == '7');
    reveal_strlit("8");
    assert("8"@.len() == 1 && "8"@[0] == '8');
    reveal_strlit("9");
    assert("9"@.len() == 1 && "9"@[0] == '9');
    reveal_strlit("F1");
    assert("F1"@.len() == 2 && "F1"@[0] == 'F' && "F1"@[1] == '1');
    reveal_strlit("F2");
    assert("F2"@.len() == 2 && "F2"@[0] == 'F' && "F2"@[1] == '2');
    reveal_strlit("F3");
    assert("F3"@.len() == 2 && "F3"@[0] == 'F' && "F3"@[1] == '3');
    reveal_strlit("F4");
    assert("F4"@.len() == 2 && "F4"@[0] == 'F' && "F4"@[1] == '4');
    reveal_strlit("F5");
    assert("F5"@.len() == 2 && "F5"@[0] == 'F' && "F5"@[1] == '5');
    reveal_strlit("F6");
    assert("F6"@.len() == 2 && "F6"@[0] == 'F' && "F6"@[1] == '6');
    reveal_strlit("F7");
    assert("F7"@.len() == 2 && "F7"@[0] == 'F' && "F7"@[1] == '7');
    reveal_strlit("F8");
    assert("F8"@.len() == 2 && "F8"@[0] == 'F' && "F8"@[1] == '8');
    reveal_strlit("F9");
    assert("F9"@.len() == 2 && "F9"@[0] == 'F' && "F9"@[1] == '9');
    reveal_strlit("F10");
    assert("F10"@.len() == 3 && "F10"@[0] == 'F' && "F10"@[1] == '1' && "F10"@[2] == '0');
    reveal_strlit("F11");
    assert("F11"@.len() == 3 && "F11"@[0] == 'F' && "F11"@[1] == '1' && "F11"@[2] == '1');
    reveal_strlit("F12");
    assert("F12"@.len() == 3 && "F12"@[0] == 'F' && "F12"@[1] == '1' && "F12"@[2] == '2');
    reveal_strlit("SPACE");
    assert("SPACE"@.len() == 5 && "SPACE"@[0] == 'S' && "SPACE"@[1] == 'P' && "SPACE"@[2] == 'A' && "SPACE"@[3] == 'C' && "SPACE"@[4] == 'E');
    reveal_strlit("SPC");
    assert("SPC"@.len() == 3 && "SPC"@[0] == 'S' && "SPC"@[1] == 'P' && "SPC"@[2] == 'C');
    reveal_strlit("ENTER");
    assert("ENTER"@.len() == 5 && "ENTER"@[0] == 'E' && "ENTER"@[1] == 'N' && "ENTER"@[2] == 'T' && "ENTER"@[3] == 'E' && "ENTER"@[4] == 'R');
    reveal_strlit("RETURN");
    assert("RETURN"@.len() == 6 && "RETURN"@[0] == 'R' && "RETURN"@[1] == 'E' && "RETURN"@[2] == 'T' && "RETURN"@[3] == 'U' && "RETURN"@[4] == 'R' && "RETURN"@[5] == 'N');
}

/// A text in capitals denotes a key just if it is the name of that key, or the
/// second name that two of them have.
pub proof fn law_keys_go_by_their_names(upper: Seq<char>, code: Code)
    ensures
        code_named(upper) == Some(code) <==> {
            ||| upper == key_name(code)
            ||| code == Code::Space && upper == "SPC"@
            ||| code == Code::Enter && upper == "RETURN"@
        },
{
    lemma_key_names(code);
}

/// Text without plus signs and without white space is one piece, as it stands.
proof fn lemma_plain_text_is_one_piece(text: Seq<char>)
    requires
        forall|i: int|
            0 <= i < text.len() ==> #[trigger] text[i] != '+' && !is_white_space(text[i]),
    ensures
        split_at_each(text, '+') == seq![text],
        trimmed(text) == text,
    decreases text.len(),
{
    if text.len() > 0 {
        let init = text.drop_last();
        assert forall|i: int| 0 <= i < init.len() implies #[trigger] init[i] != '+'
            && !is_white_space(init[i]) by {
            assert(init[i] == text[i]);
        }
        lemma_plain_text_is_one_piece(init);
        assert(text[text.len() - 1] != '+');
        assert(text[0] != '+');
        assert(init.push(text.last()) == text);
        assert(split_at_each(text, '+') == seq![text]);
    } else {
        assert(text == Seq::<char>::empty());
    }
}

/// The name of a key is the name of no modifier, and the same in upper case.
proof fn lemma_key_names_are_no_modifiers(code: Code)
    ensures
        modifier_named(ascii_lowercase(key_name(code))) is None,
        ascii_uppercase(key_name(code)) == key_name(code),
{
    lemma_key_names(code);
    let name = key_name(code);
    let lower = ascii_lowercase(name);
    assert(ascii_uppercase(name) == name);
    reveal_strlit("ctrl");
    reveal_strlit("control");
    reveal_strlit("commandorcontrol");
    reveal_strlit("cmdorctrl");
    reveal_strlit("alt");
    reveal_strlit("option");
    reveal_strlit("shift");
    reveal_strlit("super");
    reveal_strlit("meta");
    reveal_strlit("cmd");
    reveal_strlit("command");
    reveal_strlit("win");
    assert("ctrl"@.len() == 4 && "control"@.len() == 7 && "commandorcontrol"@.len() == 16);
    assert("cmdorctrl"@.len() == 9 && "option"@.len() == 6 && "meta"@.len() == 4);
    assert("command"@.len() == 7);
    assert("alt"@.len() == 3 && "alt"@[1] == 'l');
    assert("cmd"@.len() == 3 && "cmd"@[1] == 'm');
    assert("win"@.len() == 3 && "win"@[1] == 'i');
    assert("shift"@.len() == 5 && "shift"@[1] == 'h');
    assert("super"@.len() == 5 && "super"@[1] == 'u');
    if lower.len() >= 2 {
        assert(lower[1] == ascii_lower(name[1]));
    }
}

/// Every key can be named: the name of a key alone is the shortcut of that
/// key with nothing held down.
pub proof fn law_every_key_has_a_name(code: Code)
    ensures
        combined(ascii_parts_of(key_name(code))) == Some(
            Shortcut {
                mods: Modifiers { control: false, alt: false, shift: false, super_key: false },
                key: code,
            },
        ),
{
    let name = key_name(code);
    lemma_key_names(code);
    lemma_key_names_are_no_modifiers(code);
    lemma_plain_text_is_one_piece(name);
    let parts = ascii_parts_of(name);
    assert(parts == seq![Part::Key(Some(code))]);
    assert(parts.last() == Part::Key(Some(code)));
}

/// The rule changes letters only: it keeps plus signs and white space, and
/// makes none.
spec fn changes_letters_only(rule: spec_fn(char) -> char) -> bool {
    forall|c: char|
        (#[trigger] rule(c) == '+' <==> c == '+') && (is_white_space(rule(c)) <==> is_white_space(
            c,
        ))
}

proof fn lemma_split_after_rule(text: Seq<char>, rule: spec_fn(char) -> char)
    requires
        changes_letters_only(rule),
    ensures
        split_at_each(text, '+').len() > 0,
        split_at_each(text.map_values(rule), '+') == split_at_each(text, '+').map_values(
            |piece: Seq<char>| piece.map_values(rule),
        ),
    decreases text.len(),
{
    let changed = text.map_values(rule);
    let each = |piece: Seq<char>| piece.map_values(rule);
    assert(Seq::<char>::empty() == Seq::<char>::empty().map_values(rule));
    if text.len() == 0 {
        assert(split_at_each(changed, '+') == split_at_each(text, '+').map_values(each));
    } else {
        let init = text.drop_last();
        lemma_split_after_rule(init, rule);
        assert(changed.drop_last() == init.map_values(rule));
        assert(changed.last() == rule(text.last()));
        let before = split_at_each(init, '+');
        let after = split_at_each(init.map_values(rule), '+');
        assert(after.last() == before.last().map_values(rule));
        assert(after.last().push(changed.last()) == before.last().push(text.last()).map_values(
            rule,
        ));
        assert(split_at_each(changed, '+') == split_at_each(text, '+').map_values(each));
    }
}

proof fn lemma_trimmed_end_after_rule(text: Seq<char>, rule: spec_fn(char) -> char)
    requires
        changes_letters_only(rule),
    ensures
        trimmed_end(text.map_values(rule)) == trimmed_end(text).map_values(rule),
    decreases text.len(),
{
    if text.len() > 0 {
        assert(text.map_values(rule).last() == rule(text.last()));
        if is_white_space(text.last()) {
            lemma_trimmed_end_after_rule(text.drop_last(), rule);
            assert(text.map_values(rule).drop_last() == text.drop_last().map_values(rule));
        }
    }
}

proof fn lemma_trimmed_start_after_rule(text: Seq<char>, rule: spec_fn(char) -> char)
    requires
        changes_letters_only(rule),
    ensures
        trimmed_start(text.map_values(rule)) == trimmed_start(text).map_values(rule),
    decreases text.len(),
{
    if text.len() > 0 {
        assert(text.map_values(rule).first() == rule(text.first()));
        if is_white_space(text.first()) {
            lemma_trimmed_start_after_rule(text.drop_first(), rule);
            assert(text.map_values(rule).drop_first() == text.drop_first().map_values(rule));
        }
    }
}

proof fn lemma_parts_after_rule(text: Seq<char>, rule: spec_fn(char) -> char)
    requires
        changes_letters_only(rule),
        forall|c: char|
            ascii_lower(#[trigger] rule(c)) == ascii_lower(c) && ascii_upper(rule(c))
                == ascii_upper(c),
    ensures
        ascii_parts_of(text.map_values(rule)) == ascii_parts_of(text),
{
    lemma_split_after_rule(text, rule);
    let pieces = split_at_each(text, '+');
    let changed = split_at_each(text.map_values(rule), '+');
    assert forall|i: int| 0 <= i < pieces.len() implies #[trigger] ascii_parts_of(
        text.map_values(rule),
    )[i] == ascii_parts_of(text)[i] by {
        let piece = pieces[i];
        assert(changed[i] == piece.map_values(rule));
        lemma_trimmed_end_after_rule(piece, rule);
        lemma_trimmed_start_after_rule(trimmed_end(piece), rule);
        assert(ascii_lowercase(trimmed(changed[i])) == ascii_lowercase(trimmed(piece)));
        assert(ascii_uppercase(trimmed(changed[i])) == ascii_uppercase(trimmed(piece)));
    }
    assert(ascii_parts_of(text.map_values(rule)) == ascii_parts_of(text));
}

/// Letter case makes no difference: texts that differ in the case of ASCII
/// letters only name the same shortcut.
pub proof fn law_letter_case_is_ignored(one: Seq<char>, other: Seq<char>)
    requires
        ascii_lowercase(one) == ascii_lowercase(other),
    ensures
        ascii_parts_of(one) == ascii_parts_of(other),
        combined(ascii_parts_of(one)) == combined(ascii_parts_of(other)),
{
    let lower = |c: char| ascii_lower(c);
    lemma_parts_after_rule(one, lower);
    lemma_parts_after_rule(other, lower);
}

/// White space around the parts makes no difference, whatever the rules for
/// letter case: texts whose pieces are the same without it have the same parts.
pub proof fn law_white_space_around_parts_is_ignored(one: Seq<char>, other: Seq<char>)
    requires
        split_at_each(one, '+').map_values(|piece: Seq<char>| trimmed(piece)) == split_at_each(
            other,
            '+',
        ).map_values(|piece: Seq<char>| trimmed(piece)),
    ensures
        parts_of(one) == parts_of(other),
        ascii_parts_of(one) == ascii_parts_of(other),
{
    let trim_each = |piece: Seq<char>| trimmed(piece);
    let first = split_at_each(one, '+');
    let second = split_at_each(other, '+');
    assert(first.map_values(trim_each).len() == first.len());
    assert(second.map_values(trim_each).len() == second.len());
    assert forall|i: int| 0 <= i < first.len() implies trimmed(#[trigger] first[i]) == trimmed(
        second[i],
    ) by {
        assert(first.map_values(trim_each)[i] == second.map_values(trim_each)[i]);
    }
    assert(parts_of(one) == parts_of(other));
    assert(ascii_parts_of(one) == ascii_parts_of(other));
}

/// Two pieces of text read alike: without white space around them they are the
/// same in lower and in upper case, or both name the same modifier.
pub open spec fn read_alike(one: Seq<char>, other: Seq<char>) -> bool {
    ||| {
        &&& lowercase(trimmed(one)) == lowercase(trimmed(other))
        &&& uppercase(trimmed(one)) == uppercase(trimmed(other))
    }
    ||| {
        &&& modifier_named(lowercase(trimmed(one))) is Some
        &&& modifier_named(lowercase(trimmed(one))) == modifier_named(lowercase(trimmed(other)))
    }
}

/// Texts of any script whose pieces read alike, one by one, have the same
/// parts.
pub proof fn law_pieces_that_read_alike_are_same_parts(one: Seq<char>, other: Seq<char>)
    requires
        split_at_each(one, '+').len() == split_at_each(other, '+').len(),
        forall|i: int|
            0 <= i < split_at_each(one, '+').len() ==> read_alike(
                #[trigger] split_at_each(one, '+')[i],
                split_at_each(other, '+')[i],
            ),
    ensures
        parts_of(one) == parts_of(other),
        combined(parts_of(one)) == combined(parts_of(other)),
{
    let first = split_at_each(one, '+');
    let second = split_at_each(other, '+');
    assert forall|i: int| 0 <= i < first.len() implies #[trigger] parts_of(one)[i] == parts_of(
        other,
    )[i] by {
        assert(read_alike(first[i], second[i]));
    }
    assert(parts_of(one) == parts_of(other));
}

/// A plus sign between two texts puts their parts one after the other.
pub proof fn law_plus_sign_joins_parts(one: Seq<char>, other: Seq<char>)
    ensures
        parts_of(one.push('+') + other) == parts_of(one) + parts_of(other),
        ascii_parts_of(one.push('+') + other) == ascii_parts_of(one) + ascii_parts_of(other),
{
    lemma_split_of_joined(one, other);
    assert(parts_of(one.push('+') + other) == parts_of(one) + parts_of(other));
    assert(ascii_parts_of(one.push('+') + other) == ascii_parts_of(one) + ascii_parts_of(other));
}

proof fn lemma_split_of_joined(one: Seq<char>, other: Seq<char>)
    ensures
        split_at_each(other, '+').len() > 0,
        split_at_each(one.push('+') + other, '+') == split_at_each(one, '+') + split_at_each(
            other,
            '+',
        ),
    decreases other.len(),
{
    let all = one.push('+') + other;
    let front = split_at_each(one, '+');
    if other.len() == 0 {
        assert(all == one.push('+'));
        assert(all.drop_last() == one);
        assert(split_at_each(all, '+') == front + split_at_each(other, '+'));
    } else {
        let init = other.drop_last();
        lemma_split_of_joined(one, init);
        assert(all.drop_last() == one.push('+') + init);
        assert(all.last() == other.last());
        let back = split_at_each(init, '+');
        assert((front + back).last() == back.last());
        assert((front + back).drop_last() == front + back.drop_last());
        assert(split_at_each(all, '+') == front + split_at_each(other, '+'));
    }
}

/// One of the names is that of the modifier.
pub open spec fn names_modifier(names: Seq<Seq<char>>, modifier: Modifier) -> bool {
    exists|i: int| 0 <= i < names.len() && modifier_named(#[trigger] names[i]) == Some(modifier)
}

/// The last of the names that is of no modifier.
pub open spec fn last_key_name(names: Seq<Seq<char>>) -> Option<Seq<char>>
    decreases names.len(),
{
    if names.len() == 0 {
        None
    } else if modifier_named(names.last()) is None {
        Some(names.last())
    } else {
        last_key_name(names.drop_last())
    }
}

/// The part that a name in small letters is.
spec fn part_of_name(name: Seq<char>) -> Part {
    part_named(name, ascii_uppercase(name))
}

proof fn lemma_parts_by_name(text: Seq<char>)
    ensures
        ascii_parts_of(text) == names_in(text).map_values(|name: Seq<char>| part_of_name(name)),
{
    let each = |name: Seq<char>| part_of_name(name);
    let pieces = split_at_each(text, '+');
    assert(forall|c: char| ascii_upper(#[trigger] ascii_lower(c)) == ascii_upper(c));
    assert forall|i: int| 0 <= i < pieces.len() implies #[trigger] ascii_parts_of(text)[i]
        == names_in(text).map_values(each)[i] by {
        let piece = trimmed(pieces[i]);
        assert(names_in(text)[i] == ascii_lowercase(piece));
        assert(ascii_uppercase(ascii_lowercase(piece)) == ascii_uppercase(piece));
    }
    assert(ascii_parts_of(text) == names_in(text).map_values(each));
}

proof fn lemma_combined_by_name(names: Seq<Seq<char>>)
    ensures
        ({
            let parts = names.map_values(|name: Seq<char>| part_of_name(name));
            &&& forall|modifier: Modifier| #[trigger]
                holds(parts, modifier) == names_modifier(names, modifier)
            &&& last_key(parts) == match last_key_name(names) {
                Some(name) => code_named(ascii_uppercase(name)),
                None => None,
            }
        }),
    decreases names.len(),
{
    let each = |name: Seq<char>| part_of_name(name);
    let parts = names.map_values(each);
    assert forall|modifier: Modifier| #[trigger]
        holds(parts, modifier) == names_modifier(names, modifier) by {
        let wanted = Part::Modifier(modifier);
        if parts.contains(wanted) {
            let i = choose|i: int| 0 <= i < parts.len() && parts[i] == wanted;
            assert(part_of_name(names[i]) == wanted);
            assert(modifier_named(names[i]) == Some(modifier));
        }
        if names_modifier(names, modifier) {
            let i = choose|i: int|
                0 <= i < names.len() && modifier_named(#[trigger] names[i]) == Some(modifier);
            assert(parts[i] == wanted);
        }
    }
    if names.len() > 0 {
        lemma_combined_by_name(names.drop_last());
        assert(parts.drop_last() == names.drop_last().map_values(each));
        assert(parts.last() == part_of_name(names.last()));
    }
}

/// The names that are of no modifier, in order.
pub open spec fn key_names(names: Seq<Seq<char>>) -> Seq<Seq<char>> {
    names.filter(|name: Seq<char>| modifier_named(name) is None)
}

proof fn lemma_keys_with_one_more(parts: Seq<Part>, part: Part)
    ensures
        keys_among(parts.push(part)) == (if part is Key {
            keys_among(parts).push(part)
        } else {
            keys_among(parts)
        }),
{
    reveal(Seq::filter);
    assert(parts.push(part).drop_last() == parts);
}

/// The parts by the names of a text are the modifiers that it names and the
/// parts that its other names are.
proof fn lemma_names_apart(names: Seq<Seq<char>>)
    ensures
        ({
            let each = |name: Seq<char>| part_read(name);
            let parts = names.map_values(each);
            let rest = key_names(names).map_values(each);
            &&& forall|modifier: Modifier| #[trigger]
                holds(parts, modifier) == (names_modifier(names, modifier) || holds(
                    rest,
                    modifier,
                ))
            &&& keys_among(parts) == keys_among(rest)
        }),
    decreases names.len(),
{
    reveal(Seq::filter);
    let each = |name: Seq<char>| part_read(name);
    let parts = names.map_values(each);
    let rest = key_names(names).map_values(each);
    if names.len() == 0 {
        assert(parts == rest);
    } else {
        let init = names.drop_last();
        let last = names.last();
        lemma_names_apart(init);
        let parts_before = init.map_values(each);
        let rest_before = key_names(init).map_values(each);
        assert(parts == parts_before.push(part_read(last)));
        lemma_one_more_part(parts_before, part_read(last));
        lemma_keys_with_one_more(parts_before, part_read(last));
        if modifier_named(last) is None {
            assert(key_names(names) == key_names(init).push(last));
            assert(rest == rest_before.push(part_read(last)));
            lemma_one_more_part(rest_before, part_read(last));
            lemma_keys_with_one_more(rest_before, part_read(last));
        } else {
            assert(key_names(names) == key_names(init));
        }
        assert forall|modifier: Modifier| #[trigger]
            holds(parts, modifier) == (names_modifier(names, modifier) || holds(
                rest,
                modifier,
            )) by {
            assert(holds(parts_before, modifier) == (names_modifier(init, modifier) || holds(
                rest_before,
                modifier,
            )));
            if names_modifier(init, modifier) {
                let i = choose|i: int|
                    0 <= i < init.len() && modifier_named(#[trigger] init[i]) == Some(modifier);
                assert(modifier_named(names[i]) == Some(modifier));
            }
            if names_modifier(names, modifier) && modifier_named(last) != Some(modifier) {
                let i = choose|i: int|
                    0 <= i < names.len() && modifier_named(#[trigger] names[i]) == Some(modifier);
                assert(modifier_named(init[i]) == Some(modifier));
            }
            if modifier_named(last) == Some(modifier) {
                assert(modifier_named(names[names.len() - 1]) == Some(modifier));
            }
        }
    }
}

/// A text names a shortcut by which modifiers it names and by its other names
/// in their order, and by nothing else: not by the case of its ASCII letters, by
/// white space around the names, by how often or where a modifier is named, or
/// by which of its names it is given. This holds of text in any script.
pub proof fn law_spelling_is_ignored(one: Seq<char>, other: Seq<char>)
    requires
        forall|modifier: Modifier| #[trigger]
            names_modifier(names_in(one), modifier) <==> names_modifier(names_in(other), modifier),
        key_names(names_in(one)) == key_names(names_in(other)),
    ensures
        combined(parts_by_name(one)) == combined(parts_by_name(other)),
{
    lemma_names_apart(names_in(one));
    lemma_names_apart(names_in(other));
    let first = parts_by_name(one);
    let second = parts_by_name(other);
    assert forall|modifier: Modifier| #[trigger] holds(first, modifier) <==> holds(
        second,
        modifier,
    ) by {
        assert(names_modifier(names_in(one), modifier) == names_modifier(
            names_in(other),
            modifier,
        ));
    }
    law_modifiers_mix_freely(first, second);
}

/// An ASCII text names a shortcut by which modifiers it names and by the last
/// name that is none, and by nothing else.
pub proof fn law_ascii_text_goes_by_modifiers_and_last_key(one: Seq<char>, other: Seq<char>)
    requires
        forall|modifier: Modifier| #[trigger]
            names_modifier(names_in(one), modifier) <==> names_modifier(names_in(other), modifier),
        last_key_name(names_in(one)) == last_key_name(names_in(other)),
    ensures
        combined(ascii_parts_of(one)) == combined(ascii_parts_of(other)),
{
    lemma_parts_by_name(one);
    lemma_parts_by_name(other);
    lemma_combined_by_name(names_in(one));
    lemma_combined_by_name(names_in(other));
    let first = ascii_parts_of(one);
    let second = ascii_parts_of(other);
    assert forall|modifier: Modifier| #[trigger] holds(first, modifier) == holds(
        second,
        modifier,
    ) by {
        assert(names_modifier(names_in(one), modifier) == names_modifier(
            names_in(other),
            modifier,
        ));
    }
}

/// Texts with the same names, one by one, have the same parts: letter case and
/// white space around the names make no difference, in any mixture.
pub proof fn law_same_names_are_same_parts(one: Seq<char>, other: Seq<char>)
    requires
        names_in(one) == names_in(other),
    ensures
        parts_by_name(one) == parts_by_name(other),
        combined(parts_by_name(one)) == combined(parts_by_name(other)),
        ascii_parts_of(one) == ascii_parts_of(other),
        combined(ascii_parts_of(one)) == combined(ascii_parts_of(other)),
{
    lemma_parts_by_name(one);
    lemma_parts_by_name(other);
}

/// One name of a modifier is as good as another: texts whose names are the
/// same, but for modifiers that are named otherwise, have the same parts.
pub proof fn law_synonyms_are_same_parts(one: Seq<char>, other: Seq<char>)
    requires
        names_in(one).len() == names_in(other).len(),
        forall|i: int|
            0 <= i < names_in(one).len() ==> {
                ||| #[trigger] names_in(one)[i] == names_in(other)[i]
                ||| {
                    &&& modifier_named(names_in(one)[i]) is Some
                    &&& modifier_named(names_in(one)[i]) == modifier_named(names_in(other)[i])
                }
            },
    ensures
        parts_by_name(one) == parts_by_name(other),
        combined(parts_by_name(one)) == combined(parts_by_name(other)),
        ascii_parts_of(one) == ascii_parts_of(other),
        combined(ascii_parts_of(one)) == combined(ascii_parts_of(other)),
{
    lemma_parts_by_name(one);
    lemma_parts_by_name(other);
    let first = ascii_parts_of(one);
    let second = ascii_parts_of(other);
    assert forall|i: int| 0 <= i < first.len() implies #[trigger] first[i] == second[i] by {
        assert(first[i] == part_of_name(names_in(one)[i]));
        assert(second[i] == part_of_name(names_in(other)[i]));
    }
    assert(first == second);
    assert forall|i: int| 0 <= i < names_in(one).len() implies #[trigger] parts_by_name(one)[i]
        == parts_by_name(other)[i] by {
        assert(part_read(names_in(one)[i]) == part_read(names_in(other)[i]));
    }
    assert(parts_by_name(one) == parts_by_name(other));
}

proof fn lemma_parts_have_same_modifiers(one: Seq<Part>, other: Seq<Part>)
    requires
        forall|part: Part| #[trigger] one.contains(part) <==> other.contains(part),
    ensures
        held(one) == held(other),
{
}

proof fn lemma_last_key_of_parts(front: Seq<Part>, rest: Seq<Part>)
    ensures
        last_key(front + rest) == (if exists|i: int| 0 <= i < rest.len() && #[trigger] rest[i] is Key {
            last_key(rest)
        } else {
            last_key(front)
        }),
    decreases rest.len(),
{
    let all = front + rest;
    if rest.len() == 0 {
        assert(all == front);
    } else {
        assert(all.last() == rest.last());
        if rest.last() is Key {
            assert(rest[rest.len() - 1] is Key);
        } else {
            let init = rest.drop_last();
            assert(all.drop_last() == front + init);
            lemma_last_key_of_parts(front, init);
            if exists|i: int| 0 <= i < rest.len() && #[trigger] rest[i] is Key {
                let i = choose|i: int| 0 <= i < rest.len() && #[trigger] rest[i] is Key;
                assert(init[i] is Key);
            }
            if exists|i: int| 0 <= i < init.len() && #[trigger] init[i] is Key {
                let i = choose|i: int| 0 <= i < init.len() && #[trigger] init[i] is Key;
                assert(rest[i] is Key);
            }
        }
    }
}

/// Where a modifier stands makes no difference: it may change places with the
/// part that follows it.
pub proof fn law_modifiers_stand_anywhere(
    front: Seq<Part>,
    modifier: Modifier,
    part: Part,
    rest: Seq<Part>,
)
    ensures
        combined(front + seq![Part::Modifier(modifier), part] + rest) == combined(
            front + seq![part, Part::Modifier(modifier)] + rest,
        ),
{
    let held_down = Part::Modifier(modifier);
    let one = front + seq![held_down, part] + rest;
    let other = front + seq![part, held_down] + rest;
    let at = front.len() as int;
    assert forall|wanted: Part| #[trigger] one.contains(wanted) <==> other.contains(wanted) by {
        if one.contains(wanted) {
            let i = choose|i: int| 0 <= i < one.len() && one[i] == wanted;
            let j = if i == at {
                at + 1
            } else if i == at + 1 {
                at
            } else {
                i
            };
            assert(other[j] == wanted);
        }
        if other.contains(wanted) {
            let i = choose|i: int| 0 <= i < other.len() && other[i] == wanted;
            let j = if i == at {
                at + 1
            } else if i == at + 1 {
                at
            } else {
                i
            };
            assert(one[j] == wanted);
        }
    }
    lemma_parts_have_same_modifiers(one, other);
    lemma_last_key_of_parts(front + seq![held_down, part], rest);
    lemma_last_key_of_parts(front + seq![part, held_down], rest);
    assert(last_key(front + seq![held_down, part]) == last_key(front + seq![part, held_down])) by {
        assert((front + seq![held_down, part]).drop_last() == front.push(held_down));
        assert(front.push(held_down).drop_last() == front);
        assert((front + seq![part, held_down]).drop_last() == front.push(part));
        assert(front.push(part).drop_last() == front);
        assert(last_key(front.push(held_down)) == last_key(front));
        assert(last_key(front + seq![part, held_down]) == last_key(front.push(part)));
    }
}

/// The parts that are names of keys, in order.
pub open spec fn keys_among(parts: Seq<Part>) -> Seq<Part> {
    parts.filter(|part: Part| part is Key)
}

proof fn lemma_last_key_among_keys(parts: Seq<Part>)
    ensures
        last_key(parts) == (if keys_among(parts).len() == 0 {
            None
        } else {
            keys_among(parts).last()->Key_0
        }),
    decreases parts.len(),
{
    reveal(Seq::filter);
    if parts.len() > 0 {
        lemma_last_key_among_keys(parts.drop_last());
    }
}

/// In whatever order modifiers stand among the keys, and however often each is
/// named, parts with the same modifiers and the same keys in the same order
/// make the same shortcut.
pub proof fn law_modifiers_mix_freely(one: Seq<Part>, other: Seq<Part>)
    requires
        forall|modifier: Modifier| #[trigger] holds(one, modifier) <==> holds(other, modifier),
        keys_among(one) == keys_among(other),
    ensures
        combined(one) == combined(other),
{
    lemma_last_key_among_keys(one);
    lemma_last_key_among_keys(other);
    assert(holds(one, Modifier::Control) == holds(other, Modifier::Control));
    assert(holds(one, Modifier::Alt) == holds(other, Modifier::Alt));
    assert(holds(one, Modifier::Shift) == holds(other, Modifier::Shift));
    assert(holds(one, Modifier::Super) == holds(other, Modifier::Super));
}

/// A modifier that is named again changes nothing, wherever it stands.
pub proof fn law_modifiers_count_once(front: Seq<Part>, modifier: Modifier, rest: Seq<Part>)
    requires
        holds(front + rest, modifier),
    ensures
        combined(front.push(Part::Modifier(modifier)) + rest) == combined(front + rest),
{
    let again = Part::Modifier(modifier);
    let one = front.push(again) + rest;
    let other = front + rest;
    let at = front.len() as int;
    assert forall|wanted: Part| #[trigger] one.contains(wanted) <==> other.contains(wanted) by {
        if one.contains(wanted) && wanted != again {
            let i = choose|i: int| 0 <= i < one.len() && one[i] == wanted;
            let j = if i < at {
                i
            } else {
                i - 1
            };
            assert(other[j] == wanted);
        }
        if other.contains(wanted) {
            let i = choose|i: int| 0 <= i < other.len() && other[i] == wanted;
            let j = if i < at {
                i
            } else {
                i + 1
            };
            assert(one[j] == wanted);
        }
    }
    lemma_parts_have_same_modifiers(one, other);
    lemma_last_key_of_parts(front.push(again), rest);
    lemma_last_key_of_parts(front, rest);
    assert(front.push(again).drop_last() == front);
    assert(last_key(front.push(again)) == last_key(front));
}

/// A shortcut needs a key: modifiers alone are none.
pub proof fn law_modifiers_alone_are_no_shortcut(parts: Seq<Part>)
    requires
        forall|i: int| 0 <= i < parts.len() ==> #[trigger] parts[i] is Modifier,
    ensures
        combined(parts) is None,
    decreases parts.len(),
{
    if parts.len() > 0 {
        let init = parts.drop_last();
        assert forall|i: int| 0 <= i < init.len() implies #[trigger] init[i] is Modifier by {
            assert(init[i] == parts[i]);
        }
        law_modifiers_alone_are_no_shortcut(init);
        assert(parts[parts.len() - 1] is Modifier);
    }
}

} // verus!
