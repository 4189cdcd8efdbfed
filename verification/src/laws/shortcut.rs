//! The shortcuts that texts name.

use vstd::prelude::*;

use crate::shortcut::{
    code_from_name, code_named, code_of, combine, holds, last_key,
    law_keys_go_by_their_names, modifier_named, modifier_of, parse_shortcut, part_named, parts_of,
    Code, Modifier, Modifiers, Part, Shortcut, DEFAULT_SHORTCUT,
};
use crate::text::{lowercase, split_at_each, trimmed, uppercase};

verus! {

/// The text in capitals is a name of the key.
pub open spec fn is_key_name(code: Code, upper: Seq<char>) -> bool {
    match code {
        Code::KeyA => upper == "A"@,
        Code::KeyB => upper == "B"@,
        Code::KeyC => upper == "C"@,
        Code::KeyD => upper == "D"@,
        Code::KeyE => upper == "E"@,
        Code::KeyF => upper == "F"@,
        Code::KeyG => upper == "G"@,
        Code::KeyH => upper == "H"@,
        Code::KeyI => upper == "I"@,
        Code::KeyJ => upper == "J"@,
        Code::KeyK => upper == "K"@,
        Code::KeyL => upper == "L"@,
        Code::KeyM => upper == "M"@,
        Code::KeyN => upper == "N"@,
        Code::KeyO => upper == "O"@,
        Code::KeyP => upper == "P"@,
        Code::KeyQ => upper == "Q"@,
        Code::KeyR => upper == "R"@,
        Code::KeyS => upper == "S"@,
        Code::KeyT => upper == "T"@,
        Code::KeyU => upper == "U"@,
        Code::KeyV => upper == "V"@,
        Code::KeyW => upper == "W"@,
        Code::KeyX => upper == "X"@,
        Code::KeyY => upper == "Y"@,
        Code::KeyZ => upper == "Z"@,
        Code::Digit0 => upper == "0"@,
        Code::Digit1 => upper == "1"@,
        Code::Digit2 => upper == "2"@,
        Code::Digit3 => upper == "3"@,
        Code::Digit4 => upper == "4"@,
        Code::Digit5 => upper == "5"@,
        Code::Digit6 => upper == "6"@,
        Code::Digit7 => upper == "7"@,
        Code::Digit8 => upper == "8"@,
        Code::Digit9 => upper == "9"@,
        Code::F1 => upper == "F1"@,
        Code::F2 => upper == "F2"@,
        Code::F3 => upper == "F3"@,
        Code::F4 => upper == "F4"@,
        Code::F5 => upper == "F5"@,
        Code::F6 => upper == "F6"@,
        Code::F7 => upper == "F7"@,
        Code::F8 => upper == "F8"@,
        Code::F9 => upper == "F9"@,
        Code::F10 => upper == "F10"@,
        Code::F11 => upper == "F11"@,
        Code::F12 => upper == "F12"@,
        Code::Space => upper == "SPACE"@ || upper == "SPC"@,
        Code::Enter => upper == "ENTER"@ || upper == "RETURN"@,
    }
}

/// The text in small letters is a name of the modifier.
pub open spec fn is_modifier_name(modifier: Modifier, lower: Seq<char>) -> bool {
    match modifier {
        Modifier::Control => lower == "ctrl"@ || lower == "control"@ || lower
            == "commandorcontrol"@ || lower == "cmdorctrl"@,
        Modifier::Alt => lower == "alt"@ || lower == "option"@,
        Modifier::Shift => lower == "shift"@,
        Modifier::Super => lower == "super"@ || lower == "meta"@ || lower == "cmd"@ || lower
            == "command"@ || lower == "win"@,
    }
}

/// The text in small letters is a name of some modifier.
pub open spec fn is_any_modifier_name(lower: Seq<char>) -> bool {
    ||| is_modifier_name(Modifier::Control, lower)
    ||| is_modifier_name(Modifier::Alt, lower)
    ||| is_modifier_name(Modifier::Shift, lower)
    ||| is_modifier_name(Modifier::Super, lower)
}

proof fn lemma_code_named(upper: Seq<char>, code: Code)
    ensures
        code_named(upper) == Some(code) <==> is_key_name(code, upper),
{
    law_keys_go_by_their_names(upper, code);
}

proof fn lemma_modifier_named(lower: Seq<char>, modifier: Modifier)
    ensures
        modifier_named(lower) == Some(modifier) <==> is_modifier_name(modifier, lower),
        modifier_named(lower) is Some <==> is_any_modifier_name(lower),
{
    reveal_strlit("ctrl");
    reveal_strlit("control");
    reveal_strlit("commandorcontrol");
    reveal_strlit("cmdorctrl");
    reveal_strlit("alt");
    reveal_strlit("option");
    reveal_strlit("shift");
    reveal_strlit("super");
    reveal_strlit("meta");
    reveal_strlit("cmd");
    reveal_strlit("command");
    reveal_strlit("win");
    assert("ctrl"@.len() == 4 && "control"@.len() == 7 && "commandorcontrol"@.len() == 16);
    assert("cmdorctrl"@.len() == 9 && "option"@.len() == 6 && "meta"@.len() == 4);
    assert("ctrl"@[0] == 'c' && "meta"@[0] == 'm');
    assert("command"@.len() == 7 && "command"@[2] == 'm' && "control"@[2] == 'n');
    assert("alt"@.len() == 3 && "alt"@[0] == 'a');
    assert("cmd"@.len() == 3 && "cmd"@[0] == 'c');
    assert("win"@.len() == 3 && "win"@[0] == 'w');
    assert("shift"@.len() == 5 && "shift"@[1] == 'h');
    assert("super"@.len() == 5 && "super"@[1] == 'u');
}

/// A text in capitals is read as a key just if it is a name of it.
pub proof fn law_code_of(upper: &str, code: Option<Code>, key: Code)
    requires
        call_ensures(code_of, (upper,), code),
    ensures
        code == Some(key) <==> is_key_name(key, upper@),
{
    lemma_code_named(upper@, key);
}

/// A text is read as a key just if its upper case is a name of it.
pub proof fn law_code_from_name(name: &str, code: Option<Code>, key: Code)
    requires
        call_ensures(code_from_name, (name,), code),
    ensures
        code == Some(key) <==> is_key_name(key, uppercase(name@)),
{
    lemma_code_named(uppercase(name@), key);
}

/// A text in small letters is read as a modifier just if it is a name of it.
pub proof fn law_modifier_of(lower: &str, found: Option<Modifier>, modifier: Modifier)
    requires
        call_ensures(modifier_of, (lower,), found),
    ensures
        found == Some(modifier) <==> is_modifier_name(modifier, lower@),
{
    lemma_modifier_named(lower@, modifier);
}

/// The part at the index is the key, and only modifiers follow it.
pub open spec fn ends_in_key(parts: Seq<Part>, at: int, key: Option<Code>) -> bool {
    &&& parts[at] == Part::Key(key)
    &&& forall|j: int| at < j < parts.len() ==> (#[trigger] parts[j]) is Modifier
}

proof fn lemma_last_key(parts: Seq<Part>)
    ensures
        last_key(parts) matches Some(key) ==> exists|i: int|
            0 <= i < parts.len() && #[trigger] ends_in_key(parts, i, Some(key)),
        forall|i: int, key: Option<Code>|
            0 <= i < parts.len() && #[trigger] ends_in_key(parts, i, key) ==> last_key(parts)
                == key,
    decreases parts.len(),
{
    if parts.len() > 0 {
        let init = parts.drop_last();
        let last = parts.len() - 1;
        lemma_last_key(init);
        if parts.last() is Modifier {
            if last_key(parts) is Some {
                let key = last_key(parts);
                let i = choose|i: int| 0 <= i < init.len() && #[trigger] ends_in_key(init, i, key);
                assert(parts[i] == init[i]);
                assert forall|j: int| i < j < parts.len() implies (#[trigger] parts[j]) is Modifier by {
                    if j < last {
                        assert(init[j] == parts[j]);
                    }
                }
                assert(ends_in_key(parts, i, key));
            }
            assert forall|i: int, key: Option<Code>|
                0 <= i < parts.len() && #[trigger] ends_in_key(parts, i, key) implies last_key(
                parts,
            ) == key by {
                assert(i != last);
                assert forall|j: int| i < j < init.len() implies (#[trigger] init[j]) is Modifier by {
                    assert(init[j] == parts[j]);
                }
                assert(ends_in_key(init, i, key));
            }
        } else {
            assert(ends_in_key(parts, last, last_key(parts)));
            assert forall|i: int, key: Option<Code>|
                0 <= i < parts.len() && #[trigger] ends_in_key(parts, i, key) implies last_key(
                parts,
            ) == key by {
                if i < last {
                    assert(parts[last] is Modifier);
                }
            }
        }
    }
}

/// A modifier is held down just if some part is that modifier.
pub open spec fn holds_just(mods: Modifiers, parts: Seq<Part>) -> bool {
    &&& mods.control <==> exists|i: int|
        0 <= i < parts.len() && #[trigger] parts[i] == Part::Modifier(Modifier::Control)
    &&& mods.alt <==> exists|i: int|
        0 <= i < parts.len() && #[trigger] parts[i] == Part::Modifier(Modifier::Alt)
    &&& mods.shift <==> exists|i: int|
        0 <= i < parts.len() && #[trigger] parts[i] == Part::Modifier(Modifier::Shift)
    &&& mods.super_key <==> exists|i: int|
        0 <= i < parts.len() && #[trigger] parts[i] == Part::Modifier(Modifier::Super)
}

proof fn lemma_holds(parts: Seq<Part>, modifier: Modifier)
    ensures
        holds(parts, modifier) <==> exists|i: int|
            0 <= i < parts.len() && #[trigger] parts[i] == Part::Modifier(modifier),
{
    if holds(parts, modifier) {
        let i = choose|i: int| 0 <= i < parts.len() && parts[i] == Part::Modifier(modifier);
        assert(parts[i] == Part::Modifier(modifier));
    }
}

/// The parts of a shortcut make one just if a known key is among them with
/// nothing but modifiers behind it. Its key is that one, and each modifier is
/// held down just if some part is that modifier.
pub proof fn law_combine(parts: &Vec<Part>, shortcut: Option<Shortcut>)
    requires
        call_ensures(combine, (parts,), shortcut),
    ensures
        shortcut matches Some(shortcut) ==> {
            &&& holds_just(shortcut.mods, parts@)
            &&& exists|i: int|
                0 <= i < parts@.len() && #[trigger] ends_in_key(parts@, i, Some(shortcut.key))
        },
        shortcut is None ==> forall|i: int, key: Code|
            0 <= i < parts@.len() ==> !#[trigger] ends_in_key(parts@, i, Some(key)),
{
    lemma_last_key(parts@);
    lemma_holds(parts@, Modifier::Control);
    lemma_holds(parts@, Modifier::Alt);
    lemma_holds(parts@, Modifier::Shift);
    lemma_holds(parts@, Modifier::Super);
}

/// What stands between two plus signs, without white space around it.
pub open spec fn piece_at(text: Seq<char>, at: int) -> Seq<char> {
    trimmed(split_at_each(text, '+')[at])
}

/// One of the pieces of the text is, in lower case, a name of the modifier.
pub open spec fn names_the_modifier(text: Seq<char>, modifier: Modifier) -> bool {
    exists|i: int|
        0 <= i < split_at_each(text, '+').len() && is_modifier_name(
            modifier,
            lowercase(#[trigger] piece_at(text, i)),
        )
}

/// The piece at the index is no modifier, it is in upper case a name of the key,
/// and all pieces behind it are modifiers.
pub open spec fn names_the_key(text: Seq<char>, at: int, key: Code) -> bool {
    &&& !is_any_modifier_name(lowercase(piece_at(text, at)))
    &&& is_key_name(key, uppercase(piece_at(text, at)))
    &&& forall|j: int|
        at < j < split_at_each(text, '+').len() ==> is_any_modifier_name(
            lowercase(#[trigger] piece_at(text, j)),
        )
}

proof fn lemma_part(text: Seq<char>, at: int)
    requires
        0 <= at < split_at_each(text, '+').len(),
    ensures
        parts_of(text).len() == split_at_each(text, '+').len(),
        parts_of(text)[at] == part_named(
            lowercase(piece_at(text, at)),
            uppercase(piece_at(text, at)),
        ),
        parts_of(text)[at] is Modifier <==> is_any_modifier_name(lowercase(piece_at(text, at))),
        forall|modifier: Modifier| #[trigger]
            parts_of(text)[at] == Part::Modifier(modifier) <==> is_modifier_name(
                modifier,
                lowercase(piece_at(text, at)),
            ),
        forall|key: Code| #[trigger]
            parts_of(text)[at] == Part::Key(Some(key)) <==> !is_any_modifier_name(
                lowercase(piece_at(text, at)),
            ) && is_key_name(key, uppercase(piece_at(text, at))),
{
    let lower = lowercase(piece_at(text, at));
    let upper = uppercase(piece_at(text, at));
    let part = parts_of(text)[at];
    assert(part == part_named(lower, upper));
    assert forall|modifier: Modifier| #[trigger]
        parts_of(text)[at] == Part::Modifier(modifier) <==> is_modifier_name(modifier, lower) by {
        lemma_modifier_named(lower, modifier);
    }
    lemma_modifier_named(lower, Modifier::Control);
    assert forall|key: Code| #[trigger]
        parts_of(text)[at] == Part::Key(Some(key)) <==> !is_any_modifier_name(lower)
        && is_key_name(key, upper) by {
        lemma_code_named(upper, key);
    }
}

proof fn lemma_names_the_modifier(text: Seq<char>, modifier: Modifier)
    ensures
        holds(parts_of(text), modifier) <==> names_the_modifier(text, modifier),
{
    let parts = parts_of(text);
    let pieces = split_at_each(text, '+');
    assert(parts.len() == pieces.len());
    if holds(parts, modifier) {
        let i = choose|i: int| 0 <= i < parts.len() && parts[i] == Part::Modifier(modifier);
        lemma_part(text, i);
        assert(is_modifier_name(modifier, lowercase(piece_at(text, i))));
    }
    if names_the_modifier(text, modifier) {
        let i = choose|i: int|
            0 <= i < pieces.len() && is_modifier_name(
                modifier,
                lowercase(#[trigger] piece_at(text, i)),
            );
        lemma_part(text, i);
        assert(parts[i] == Part::Modifier(modifier));
    }
}

proof fn lemma_names_the_key(text: Seq<char>, at: int, key: Code)
    requires
        0 <= at < split_at_each(text, '+').len(),
    ensures
        ends_in_key(parts_of(text), at, Some(key)) <==> names_the_key(text, at, key),
{
    let parts = parts_of(text);
    lemma_part(text, at);
    assert(parts[at] == Part::Key(Some(key)) <==> !is_any_modifier_name(
        lowercase(piece_at(text, at)),
    ) && is_key_name(key, uppercase(piece_at(text, at))));
    assert forall|j: int| at < j < parts.len() implies ((#[trigger] parts[j]) is Modifier
        <==> is_any_modifier_name(lowercase(piece_at(text, j)))) by {
        lemma_part(text, j);
    }
    if ends_in_key(parts, at, Some(key)) {
        assert forall|j: int| at < j < parts.len() implies is_any_modifier_name(
            lowercase(#[trigger] piece_at(text, j)),
        ) by {
            assert(parts[j] is Modifier);
        }
    }
    if names_the_key(text, at, key) {
        assert forall|j: int| at < j < parts.len() implies (#[trigger] parts[j]) is Modifier by {
            assert(is_any_modifier_name(lowercase(piece_at(text, j))));
        }
    }
}

/// A text names a shortcut just if one of its pieces is the name of a key and
/// all behind it are names of modifiers. The key is that one, and each modifier
/// is held down just if some piece is a name of it.
pub proof fn law_parse_shortcut(text: &str, shortcut: Option<Shortcut>)
    requires
        call_ensures(parse_shortcut, (text,), shortcut),
    ensures
        shortcut matches Some(shortcut) ==> {
            &&& shortcut.mods.control <==> names_the_modifier(text@, Modifier::Control)
            &&& shortcut.mods.alt <==> names_the_modifier(text@, Modifier::Alt)
            &&& shortcut.mods.shift <==> names_the_modifier(text@, Modifier::Shift)
            &&& shortcut.mods.super_key <==> names_the_modifier(text@, Modifier::Super)
            &&& exists|i: int|
                0 <= i < split_at_each(text@, '+').len() && #[trigger] names_the_key(
                    text@,
                    i,
                    shortcut.key,
                )
        },
        shortcut is None ==> forall|i: int, key: Code|
            0 <= i < split_at_each(text@, '+').len() ==> !#[trigger] names_the_key(text@, i, key),
{
    let parts = parts_of(text@);
    assert(parts.len() == split_at_each(text@, '+').len());
    lemma_last_key(parts);
    lemma_names_the_modifier(text@, Modifier::Control);
    lemma_names_the_modifier(text@, Modifier::Alt);
    lemma_names_the_modifier(text@, Modifier::Shift);
    lemma_names_the_modifier(text@, Modifier::Super);
    if shortcut is Some {
        let key = shortcut->0.key;
        let i = choose|i: int| 0 <= i < parts.len() && #[trigger] ends_in_key(parts, i, Some(key));
        lemma_names_the_key(text@, i, key);
        assert(names_the_key(text@, i, key));
    } else {
        assert forall|i: int, key: Code|
            0 <= i < split_at_each(text@, '+').len() implies !#[trigger] names_the_key(
            text@,
            i,
            key,
        ) by {
            lemma_names_the_key(text@, i, key);
            if names_the_key(text@, i, key) {
                assert(ends_in_key(parts, i, Some(key)));
            }
        }
    }
}

/// The shortcut that is used when none is set.
pub proof fn law_default_shortcut()
    ensures
        DEFAULT_SHORTCUT@ == "CommandOrControl+Shift+S"@,
{
}

} // verus!
