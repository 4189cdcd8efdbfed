//! The audio devices to choose from, and the choice among them.

use vstd::prelude::*;

use crate::text::{
    ascii_lower, ascii_lowercase, ascii_upper, ascii_uppercase, chars_if_any, is_ascii_text,
    lowercase, starts_with,
};

verus! {

/// A device that sound can be recorded from, as it is offered to the user.
#[derive(Debug, Clone)]
pub struct AudioDevice {
    pub name: String,
    pub is_default: bool,
    pub is_advanced: bool,
}

/// What an `AudioDevice` says.
pub struct DeviceEntry {
    pub name: Seq<char>,
    pub is_default: bool,
    pub is_advanced: bool,
}

impl View for AudioDevice {
    type V = DeviceEntry;

    open spec fn view(&self) -> DeviceEntry {
        DeviceEntry {
            name: self.name@,
            is_default: self.is_default,
            is_advanced: self.is_advanced,
        }
    }
}

/// The name, in lower case, is one that the sound system gives to a raw or
/// special device.
pub open spec fn names_advanced(lower: Seq<char>) -> bool {
    ||| "hw:"@.is_prefix_of(lower)
    ||| "plughw:"@.is_prefix_of(lower)
    ||| "dsnoop:"@.is_prefix_of(lower)
    ||| "dmix:"@.is_prefix_of(lower)
    ||| "front:"@.is_prefix_of(lower)
    ||| "surround"@.is_prefix_of(lower)
    ||| "iec958:"@.is_prefix_of(lower)
    ||| "sysdefault:"@.is_prefix_of(lower)
}

/// Whether a name in lower case is that of a raw or special device.
pub fn is_advanced_name(lower: &str) -> (advanced: bool)
    ensures
        advanced == names_advanced(lower@),
{
    starts_with(lower, "hw:") || starts_with(lower, "plughw:") || starts_with(lower, "dsnoop:")
        || starts_with(lower, "dmix:") || starts_with(lower, "front:") || starts_with(
        lower,
        "surround",
    ) || starts_with(lower, "iec958:") || starts_with(lower, "sysdefault:")
}

/// What makes no difference to whether a name is that of a raw or special
/// device:
/// - the case of its ASCII letters; and an ASCII name is judged by those alone;
/// - what follows a beginning of it that is the name of one;
/// - what follows an ASCII beginning of it that is the name of one, judged by
///   the ASCII letters alone.
pub open spec fn judged_by_prefix(name: Seq<char>, advanced: bool) -> bool {
    &&& is_ascii_text(name) ==> advanced == names_advanced(ascii_lowercase(name))
    &&& forall|other: Seq<char>|
        ascii_lowercase(other) == ascii_lowercase(name) ==> advanced == names_advanced(
            #[trigger] lowercase(other),
        )
    &&& forall|n: int|
        0 <= n <= name.len() && names_advanced(#[trigger] lowercase(name.take(n))) ==> advanced
    &&& forall|n: int|
        0 <= n <= name.len() && is_ascii_text(#[trigger] name.take(n)) && names_advanced(
            ascii_lowercase(name.take(n)),
        ) ==> advanced
}

/// What makes no difference to whether a name, if there is one, is that of a
/// raw or special device.
pub open spec fn is_judged(name: Option<String>) -> bool {
    name matches Some(name) ==> judged_by_prefix(name@, names_advanced(lowercase(name@)))
}

/// Whether a name, in whatever letter case, is that of a raw or special
/// device.
pub fn classify_advanced(name: &str) -> (advanced: bool)
    ensures
        advanced == names_advanced(lowercase(name@)),
        judged_by_prefix(name@, advanced),
{
    let lower = name.to_lowercase();
    proof {
        assert forall|n: int|
            0 <= n <= name@.len() && names_advanced(
                #[trigger] lowercase(name@.take(n)),
            ) implies names_advanced(lower@) by {
            lemma_prefixes_decide(lowercase(name@.take(n)), lower@);
        }
        assert forall|n: int|
            0 <= n <= name@.len() && is_ascii_text(#[trigger] name@.take(n)) && names_advanced(
                ascii_lowercase(name@.take(n)),
            ) implies names_advanced(lower@) by {
            let start = ascii_lowercase(name@.take(n));
            lemma_longer_name(start, lower@.skip(start.len() as int));
            assert(start + lower@.skip(start.len() as int) == lower@);
        }
    }
    is_advanced_name(lower.as_str())
}

/// Of two names in lower case, if every ASCII beginning of the first begins the
/// second, and the first is that of a raw or special device, so is the second.
proof fn lemma_prefixes_decide(first: Seq<char>, second: Seq<char>)
    requires
        names_advanced(first),
        forall|start: Seq<char>|
            is_ascii_text(start) && #[trigger] start.is_prefix_of(first) ==> start.is_prefix_of(
                second,
            ),
    ensures
        names_advanced(second),
{
    reveal_strlit("hw:");
    reveal_strlit("plughw:");
    reveal_strlit("dsnoop:");
    reveal_strlit("dmix:");
    reveal_strlit("front:");
    reveal_strlit("surround");
    reveal_strlit("iec958:");
    reveal_strlit("sysdefault:");
    assert(is_ascii_text("hw:"@) && is_ascii_text("plughw:"@) && is_ascii_text("dsnoop:"@));
    assert(is_ascii_text("dmix:"@) && is_ascii_text("front:"@) && is_ascii_text("surround"@));
    assert(is_ascii_text("iec958:"@) && is_ascii_text("sysdefault:"@));
}

proof fn lemma_prefix_of_longer(prefix: Seq<char>, text: Seq<char>, rest: Seq<char>)
    requires
        prefix.is_prefix_of(text),
    ensures
        prefix.is_prefix_of(text + rest),
{
    assert((text + rest).subrange(0, prefix.len() as int) == text.subrange(
        0,
        prefix.len() as int,
    ));
}

/// What follows the name of a raw or special device makes no difference: a
/// longer name that begins with it is that of one too.
pub proof fn law_rest_of_name_is_ignored(name: Seq<char>, rest: Seq<char>)
    ensures
        names_advanced(name) ==> names_advanced(name + rest),
        names_advanced(ascii_lowercase(name)) ==> names_advanced(ascii_lowercase(name + rest)),
{
    if names_advanced(name) {
        lemma_longer_name(name, rest);
    }
    if names_advanced(ascii_lowercase(name)) {
        lemma_longer_name(ascii_lowercase(name), ascii_lowercase(rest));
        assert(ascii_lowercase(name) + ascii_lowercase(rest) == ascii_lowercase(name + rest));
    }
}

proof fn lemma_longer_name(name: Seq<char>, rest: Seq<char>)
    requires
        names_advanced(name),
    ensures
        names_advanced(name + rest),
{
    if "hw:"@.is_prefix_of(name) {
        lemma_prefix_of_longer("hw:"@, name, rest);
    } else if "plughw:"@.is_prefix_of(name) {
        lemma_prefix_of_longer("plughw:"@, name, rest);
    } else if "dsnoop:"@.is_prefix_of(name) {
        lemma_prefix_of_longer("dsnoop:"@, name, rest);
    } else if "dmix:"@.is_prefix_of(name) {
        lemma_prefix_of_longer("dmix:"@, name, rest);
    } else if "front:"@.is_prefix_of(name) {
        lemma_prefix_of_longer("front:"@, name, rest);
    } else if "surround"@.is_prefix_of(name) {
        lemma_prefix_of_longer("surround"@, name, rest);
    } else if "iec958:"@.is_prefix_of(name) {
        lemma_prefix_of_longer("iec958:"@, name, rest);
    } else {
        lemma_prefix_of_longer("sysdefault:"@, name, rest);
    }
}

/// The letter case of a name makes no difference: in capitals or in small
/// letters it is that of a raw or special device just if it is one as it
/// stands. ASCII names stay ASCII names.
pub proof fn law_letter_case_of_name_is_ignored(name: Seq<char>)
    ensures
        names_advanced(ascii_lowercase(ascii_uppercase(name))) == names_advanced(
            ascii_lowercase(name),
        ),
        names_advanced(ascii_lowercase(ascii_lowercase(name))) == names_advanced(
            ascii_lowercase(name),
        ),
        is_ascii_text(name) ==> is_ascii_text(ascii_uppercase(name)) && is_ascii_text(
            ascii_lowercase(name),
        ),
{
    assert(forall|c: char| ascii_lower(#[trigger] ascii_upper(c)) == ascii_lower(c));
    assert(ascii_lowercase(ascii_uppercase(name)) == ascii_lowercase(name));
    assert(ascii_lowercase(ascii_lowercase(name)) == ascii_lowercase(name));
}

/// What `classify_advanced` says of a name it says of every name that begins
/// with it, if it is that of a raw or special device, whatever the script of
/// either.
pub proof fn law_classification_ignores_the_rest(
    name: Seq<char>,
    rest: Seq<char>,
    shorter: bool,
    longer: bool,
)
    requires
        shorter == names_advanced(lowercase(name)),
        judged_by_prefix(name + rest, longer),
    ensures
        shorter ==> longer,
{
    assert((name + rest).take(name.len() as int) == name);
}

/// What `classify_advanced` says of a name it says of every name that differs
/// from it in the case of ASCII letters only, such as the name in capitals,
/// whatever its script.
pub proof fn law_classification_ignores_letter_case(
    name: Seq<char>,
    other: Seq<char>,
    advanced: bool,
    other_advanced: bool,
)
    requires
        judged_by_prefix(name, advanced),
        other_advanced == names_advanced(lowercase(other)),
        ascii_lowercase(other) == ascii_lowercase(name) || other == ascii_uppercase(name) || other
            == ascii_lowercase(name),
    ensures
        other_advanced == advanced,
{
    assert(forall|c: char| ascii_lower(#[trigger] ascii_upper(c)) == ascii_lower(c));
    assert(ascii_lowercase(ascii_uppercase(name)) == ascii_lowercase(name));
    assert(ascii_lowercase(ascii_lowercase(name)) == ascii_lowercase(name));
    assert(ascii_lowercase(other) == ascii_lowercase(name));
}

/// The entry that stands for whatever device is the default one.
pub open spec fn default_entry() -> DeviceEntry {
    DeviceEntry { name: "Default"@, is_default: true, is_advanced: false }
}

/// The entry of a device with the given name. A device named like the entry
/// for the default one is not advanced.
pub open spec fn entry_of(name: Seq<char>, default_name: Seq<char>) -> DeviceEntry {
    DeviceEntry {
        name,
        is_default: name == default_name,
        is_advanced: name != "Default"@ && names_advanced(lowercase(name)),
    }
}

/// The entries of the devices whose names are known, in order.
pub open spec fn entries_of(names: Seq<Option<String>>, default_name: Seq<char>) -> Seq<
    DeviceEntry,
>
    decreases names.len(),
{
    if names.len() == 0 {
        Seq::empty()
    } else {
        let before = entries_of(names.drop_last(), default_name);
        match names.last() {
            Some(name) => before.push(entry_of(name@, default_name)),
            None => before,
        }
    }
}

/// The views of a list of devices.
pub open spec fn entries(devices: Seq<AudioDevice>) -> Seq<DeviceEntry> {
    devices.map_values(|device: AudioDevice| device@)
}

/// The devices to offer: first the default one under the name `Default`, then
/// each device with a name. `default_name` is the name of the default device,
/// if it has one; `names` are the names of the devices, as far as each has
/// one, or nothing if the devices could not be listed.
pub fn list_devices(
    default_name: Option<String>,
    names: Option<Vec<Option<String>>>,
) -> (devices: Vec<AudioDevice>)
    ensures
        entries(devices@) == seq![default_entry()] + match names {
            Some(names) => entries_of(
                names@,
                match default_name {
                    Some(default_name) => default_name@,
                    None => Seq::empty(),
                },
            ),
            None => Seq::empty(),
        },
        names matches Some(names) ==> forall|i: int|
            0 <= i < names@.len() ==> is_judged(#[trigger] names@[i]),
        forall|i: int|
            0 < i < devices@.len() && (#[trigger] devices@[i]).name@ != "Default"@
                ==> judged_by_prefix(devices@[i].name@, devices@[i].is_advanced),
{
    let default_name = match default_name {
        Some(default_name) => default_name,
        None => String::new(),
    };
    let mut devices: Vec<AudioDevice> = Vec::new();
    devices.push(
        AudioDevice { name: "Default".to_string(), is_default: true, is_advanced: false },
    );
    assert(entries(devices@) == seq![default_entry()]);
    if let Some(names) = names {
        let mut at: usize = 0;
        assert(entries_of(names@.take(0), default_name@) == Seq::<DeviceEntry>::empty());
        assert(entries(devices@) == seq![default_entry()] + entries_of(
            names@.take(0),
            default_name@,
        ));
        while at < names.len()
            invariant
                at <= names.len(),
                forall|i: int| 0 <= i < at ==> is_judged(#[trigger] names@[i]),
                devices@.len() > 0,
                forall|i: int|
                    0 < i < devices@.len() && (#[trigger] devices@[i]).name@ != "Default"@
                        ==> judged_by_prefix(devices@[i].name@, devices@[i].is_advanced),
                entries(devices@) == seq![default_entry()] + entries_of(
                    names@.take(at as int),
                    default_name@,
                ),
            decreases names.len() - at,
        {
            let ghost listed = entries(devices@);
            let ghost head = names@.take(at + 1);
            assert(head.drop_last() == names@.take(at as int));
            assert(head.last() == names@[at as int]);
            if let Some(name) = &names[at] {
                let is_default = *name.as_str() == *default_name.as_str();
                let advanced = classify_advanced(name.as_str());
                let is_advanced = *name.as_str() != *"Default" && advanced;
                devices.push(AudioDevice { name: name.clone(), is_default, is_advanced });
                assert(entries(devices@) == listed.push(entry_of(name@, default_name@)));
            }
            assert(entries(devices@) == seq![default_entry()] + entries_of(head, default_name@));
            at += 1;
        }
        assert(names@.take(names@.len() as int) == names@);
    } else {
        assert(entries(devices@) == seq![default_entry()] + Seq::empty());
    }
    devices
}

/// The device that was picked.
#[derive(Debug, Clone, Copy, PartialEq, Eq, Structural)]
pub enum Picked {
    /// The default device.
    Default,
    /// The device at this index of the list.
    At(usize),
}

/// The choice stands for the default device: no name, the empty one, or
/// `Default`.
pub open spec fn chooses_default(choice: Option<Seq<char>>) -> bool {
    match choice {
        Some(name) => name.len() == 0 || name == "Default"@,
        None => true,
    }
}

/// The name is that of the device at the given index.
pub open spec fn is_named(names: Seq<Option<String>>, at: int, name: Seq<char>) -> bool {
    names[at] matches Some(found) && found@ == name
}

/// The name is that of no device.
pub open spec fn none_named(names: Seq<Option<String>>, name: Seq<char>) -> bool {
    forall|i: int| 0 <= i < names.len() ==> !#[trigger] is_named(names, i, name)
}

/// Whether the choice stands for the default device.
pub fn picks_default(choice: Option<&str>) -> (default: bool)
    ensures
        default == chooses_default(chars_if_any(choice)),
{
    match choice {
        Some(name) => name.is_empty() || *name == *"Default",
        None => true,
    }
}

/// The first device of the given name.
pub fn find_device(names: &Vec<Option<String>>, name: &str) -> (found: Option<usize>)
    ensures
        match found {
            Some(at) => {
                &&& at < names@.len()
                &&& is_named(names@, at as int, name@)
                &&& forall|i: int| 0 <= i < at ==> !#[trigger] is_named(names@, i, name@)
            },
            None => forall|i: int|
                0 <= i < names@.len() ==> !#[trigger] is_named(names@, i, name@),
        },
        found is None ==> none_named(names@, name@),
{
    let mut at: usize = 0;
    while at < names.len()
        invariant
            at <= names.len(),
            forall|i: int| 0 <= i < at ==> !#[trigger] is_named(names@, i, name@),
        decreases names.len() - at,
    {
        if let Some(found) = &names[at] {
            if *found.as_str() == *name {
                return Some(at);
            }
        }
        at += 1;
    }
    None
}

/// What picking the default device gives.
pub open spec fn picks_the_default(
    default_present: bool,
    picked: Result<Picked, String>,
) -> bool {
    if default_present {
        picked matches Ok(found) && found is Default
    } else {
        picked matches Err(error) && error@ == "No default input device"@
    }
}

/// What picking a device by name gives: the first one of that name.
pub open spec fn picks_by_name(
    names: Seq<Option<String>>,
    name: Seq<char>,
    picked: Result<Picked, String>,
) -> bool {
    match picked {
        Ok(Picked::At(at)) => {
            &&& at < names.len()
            &&& is_named(names, at as int, name)
            &&& forall|i: int| 0 <= i < at ==> !#[trigger] is_named(names, i, name)
        },
        Ok(Picked::Default) => false,
        Err(error) => {
            &&& error@ == "Device not found: "@ + name
            &&& forall|i: int| 0 <= i < names.len() ==> !#[trigger] is_named(names, i, name)
        },
    }
}

/// Picks the device to record from: the default one if the choice stands for
/// it, or else the first one of that name. `default_present` tells whether
/// there is a default device; `names` are the names of the devices, as far as
/// each has one, or why they could not be listed.
pub fn pick_device(
    choice: Option<&str>,
    default_present: bool,
    names: Result<Vec<Option<String>>, String>,
) -> (picked: Result<Picked, String>)
    ensures
        choice is None ==> picks_the_default(default_present, picked),
        choice matches Some(name) ==> if chooses_default(Some(name@)) {
            picks_the_default(default_present, picked)
        } else {
            match names {
                Ok(names) => picks_by_name(names@, name@, picked),
                Err(failure) => picked matches Err(error) && error@ == failure@,
            }
        },
{
    if picks_default(choice) {
        if default_present {
            return Ok(Picked::Default);
        }
        return Err("No default input device".to_string());
    }
    let name = match choice {
        Some(name) => name,
        None => "",
    };
    match names {
        Ok(names) => match find_device(&names, name) {
            Some(at) => Ok(Picked::At(at)),
            None => {
                let mut error = "Device not found: ".to_string();
                error.append(name);
                Err(error)
            },
        },
        Err(failure) => Err(failure),
    }
}

/// The offer begins with the default device, under the name that picks it.
pub proof fn law_offer_begins_with_default(names: Seq<Option<String>>, default_name: Seq<char>)
    ensures
        (seq![default_entry()] + entries_of(names, default_name))[0] == default_entry(),
        chooses_default(Some(default_entry().name)),
        default_entry().is_default,
        !default_entry().is_advanced,
{
}

/// Every other device that is offered can be picked by its name, unless that
/// name stands for the default device: some device of the list has it.
pub proof fn law_offered_devices_can_be_picked(
    names: Seq<Option<String>>,
    default_name: Seq<char>,
    at: int,
    picked: Result<Picked, String>,
)
    requires
        0 <= at < entries_of(names, default_name).len(),
        picks_by_name(names, entries_of(names, default_name)[at].name, picked),
    ensures
        picked matches Ok(Picked::At(found)) && found < names.len() && is_named(
            names,
            found as int,
            entries_of(names, default_name)[at].name,
        ),
{
    lemma_offered_devices_are_listed(names, default_name, at);
}

proof fn lemma_offered_devices_are_listed(
    names: Seq<Option<String>>,
    default_name: Seq<char>,
    at: int,
)
    requires
        0 <= at < entries_of(names, default_name).len(),
    ensures
        exists|i: int|
            0 <= i < names.len() && #[trigger] is_named(
                names,
                i,
                entries_of(names, default_name)[at].name,
            ),
    decreases names.len(),
{
    let name = entries_of(names, default_name)[at].name;
    let init = names.drop_last();
    if at < entries_of(init, default_name).len() {
        lemma_offered_devices_are_listed(init, default_name, at);
        let i = choose|i: int| 0 <= i < init.len() && #[trigger] is_named(init, i, name);
        assert(is_named(names, i, name));
    } else {
        assert(is_named(names, names.len() - 1, name));
    }
}

} // verus!
