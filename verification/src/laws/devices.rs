//! The devices that are offered, and the one that is picked.

use vstd::prelude::*;

use crate::devices::{
    classify_advanced, entries, entries_of, entry_of, find_device, is_advanced_name, is_named,
    list_devices, names_advanced, pick_device, picks_default, AudioDevice, Picked,
};
use crate::text::lowercase;

verus! {

/// What the names of raw and special devices begin with.
pub open spec fn device_prefixes() -> Seq<Seq<char>> {
    seq![
        "hw:"@,
        "plughw:"@,
        "dsnoop:"@,
        "dmix:"@,
        "front:"@,
        "surround"@,
        "iec958:"@,
        "sysdefault:"@,
    ]
}

/// The name begins with one of the listed beginnings.
pub open spec fn has_device_prefix(lower: Seq<char>) -> bool {
    exists|k: int| 0 <= k < 8 && (#[trigger] device_prefixes()[k]).is_prefix_of(lower)
}

proof fn lemma_names_advanced(lower: Seq<char>)
    ensures
        names_advanced(lower) == has_device_prefix(lower),
{
    let list = device_prefixes();
    if names_advanced(lower) {
        let k: int = if list[0].is_prefix_of(lower) {
            0
        } else if list[1].is_prefix_of(lower) {
            1
        } else if list[2].is_prefix_of(lower) {
            2
        } else if list[3].is_prefix_of(lower) {
            3
        } else if list[4].is_prefix_of(lower) {
            4
        } else if list[5].is_prefix_of(lower) {
            5
        } else if list[6].is_prefix_of(lower) {
            6
        } else {
            7
        };
        assert(list[k].is_prefix_of(lower));
    }
    if has_device_prefix(lower) {
        let k = choose|k: int| 0 <= k < 8 && (#[trigger] list[k]).is_prefix_of(lower);
        assert(k == 0 || k == 1 || k == 2 || k == 3 || k == 4 || k == 5 || k == 6 || k == 7);
    }
}

/// A name in lower case is that of a raw or special device just if it has one
/// of their beginnings.
pub proof fn law_is_advanced_name(lower: &str, advanced: bool)
    requires
        call_ensures(is_advanced_name, (lower,), advanced),
    ensures
        advanced <==> has_device_prefix(lower@),
{
    lemma_names_advanced(lower@);
}

/// A name is that of a raw or special device just if its lower case has one of
/// their beginnings.
pub proof fn law_classify_advanced(name: &str, advanced: bool)
    requires
        call_ensures(classify_advanced, (name,), advanced),
    ensures
        advanced <==> has_device_prefix(lowercase(name@)),
{
    lemma_names_advanced(lowercase(name@));
}

/// How many of the first `count` devices have a name.
pub open spec fn named_before(names: Seq<Option<String>>, count: int) -> int
    decreases count,
{
    if count <= 0 {
        0
    } else {
        named_before(names, count - 1) + if names[count - 1] is Some {
            1int
        } else {
            0int
        }
    }
}

proof fn lemma_entries(names: Seq<Option<String>>, default_name: Seq<char>, count: int)
    requires
        0 <= count <= names.len(),
    ensures
        entries_of(names.take(count), default_name).len() == named_before(names, count),
        forall|i: int|
            0 <= i < count && (#[trigger] names[i]) is Some ==> {
                &&& 0 <= named_before(names, i) < named_before(names, count)
                &&& entries_of(names.take(count), default_name)[named_before(names, i)] == entry_of(
                    names[i]->0@,
                    default_name,
                )
            },
    decreases count,
{
    if count > 0 {
        lemma_entries(names, default_name, count - 1);
        assert(names.take(count).drop_last() == names.take(count - 1));
        assert(names.take(count).last() == names[count - 1]);
    }
}

/// The offer is the default device under the name `Default`, and then each
/// device with a name, in the order of the list and under that name. A device
/// is marked as the default one just if it has the name of it, and as advanced
/// just if the lower case of its name, which is not `Default`, has one of the
/// listed beginnings.
pub proof fn law_list_devices(
    default_name: Option<String>,
    names: Vec<Option<String>>,
    devices: Vec<AudioDevice>,
)
    requires
        call_ensures(list_devices, (default_name, Some(names)), devices),
    ensures
        devices@.len() == 1 + named_before(names@, names@.len() as int),
        devices@[0].name@ == "Default"@,
        devices@[0].is_default,
        !devices@[0].is_advanced,
        forall|i: int|
            0 <= i < names@.len() && (#[trigger] names@[i]) is Some ==> {
                let name = names@[i]->0@;
                let at = 1 + named_before(names@, i);
                &&& 0 < at < devices@.len()
                &&& devices@[at].name@ == name
                &&& devices@[at].is_default <==> name == (match default_name {
                    Some(default_name) => default_name@,
                    None => Seq::empty(),
                })
                &&& devices@[at].is_advanced <==> name != "Default"@ && has_device_prefix(
                    lowercase(name),
                )
            },
{
    let default = match default_name {
        Some(default_name) => default_name@,
        None => Seq::empty(),
    };
    lemma_entries(names@, default, names@.len() as int);
    assert(names@.take(names@.len() as int) == names@);
    let listed = entries(devices@);
    assert(listed.len() == devices@.len());
    assert(listed[0] == devices@[0]@);
    assert forall|i: int| 0 <= i < names@.len() && (#[trigger] names@[i]) is Some implies {
        let name = names@[i]->0@;
        let at = 1 + named_before(names@, i);
        &&& 0 < at < devices@.len()
        &&& devices@[at].name@ == name
        &&& devices@[at].is_default <==> name == default
        &&& devices@[at].is_advanced <==> name != "Default"@ && has_device_prefix(lowercase(name))
    } by {
        let at = 1 + named_before(names@, i);
        assert(listed[at] == entries_of(names@, default)[at - 1]);
        assert(listed[at] == devices@[at]@);
        lemma_names_advanced(lowercase(names@[i]->0@));
    }
}

/// Without a list of devices the default one alone is offered.
pub proof fn law_list_no_devices(default_name: Option<String>, devices: Vec<AudioDevice>)
    requires
        call_ensures(list_devices, (default_name, None), devices),
    ensures
        devices@.len() == 1,
        devices@[0].name@ == "Default"@,
        devices@[0].is_default,
        !devices@[0].is_advanced,
{
    assert(entries(devices@).len() == devices@.len());
    assert(entries(devices@)[0] == devices@[0]@);
}

/// The default device is meant by no name, by the empty one and by `Default`,
/// and by no other.
pub proof fn law_picks_default(choice: Option<&str>, default: bool)
    requires
        call_ensures(picks_default, (choice,), default),
    ensures
        choice is None ==> default,
        choice matches Some(name) ==> (default <==> name@.len() == 0 || name@ == "Default"@),
{
}

/// The device at the index has the name.
pub open spec fn has_name(names: Seq<Option<String>>, at: int, name: Seq<char>) -> bool {
    names[at] is Some && names[at]->0@ == name
}

/// The first device of a name is found if there is one.
pub proof fn law_find_device(names: &Vec<Option<String>>, name: &str, found: Option<usize>)
    requires
        call_ensures(find_device, (names, name), found),
    ensures
        found matches Some(at) ==> at < names@.len() && has_name(names@, at as int, name@)
            && forall|i: int| 0 <= i < at ==> !#[trigger] has_name(names@, i, name@),
        found is None <==> forall|i: int|
            0 <= i < names@.len() ==> !#[trigger] has_name(names@, i, name@),
{
    assert forall|i: int| #[trigger] has_name(names@, i, name@) == is_named(names@, i, name@) by {}
    match found {
        Some(at) => {
            assert(has_name(names@, at as int, name@));
            assert forall|i: int| 0 <= i < at implies !#[trigger] has_name(names@, i, name@) by {
                assert(!is_named(names@, i, name@));
            }
        },
        None => {
            assert forall|i: int| 0 <= i < names@.len() implies !#[trigger] has_name(
                names@,
                i,
                name@,
            ) by {
                assert(!is_named(names@, i, name@));
            }
        },
    }
}

/// Without a name, with the empty one or with `Default` the default device is
/// picked if there is one, whatever the list.
pub proof fn law_pick_default(
    choice: Option<&str>,
    default_present: bool,
    names: Result<Vec<Option<String>>, String>,
    picked: Result<Picked, String>,
)
    requires
        call_ensures(pick_device, (choice, default_present, names), picked),
        choice matches Some(name) ==> name@.len() == 0 || name@ == "Default"@,
    ensures
        default_present ==> picked == Ok::<Picked, String>(Picked::Default),
        !default_present ==> picked is Err && picked->Err_0@ == "No default input device"@,
{
}

/// With any other name the first device of that name is picked, whether or not
/// there is a default one; the error says which name is missing.
pub proof fn law_pick_by_name(
    name: &str,
    default_present: bool,
    names: Vec<Option<String>>,
    picked: Result<Picked, String>,
)
    requires
        call_ensures(pick_device, (Some(name), default_present, Ok(names)), picked),
        name@.len() > 0,
        name@ != "Default"@,
    ensures
        picked matches Ok(device) ==> {
            &&& device is At
            &&& device->At_0 < names@.len()
            &&& has_name(names@, device->At_0 as int, name@)
            &&& forall|i: int| 0 <= i < device->At_0 ==> !#[trigger] has_name(names@, i, name@)
        },
        picked is Err <==> forall|i: int|
            0 <= i < names@.len() ==> !#[trigger] has_name(names@, i, name@),
        picked is Err ==> picked->Err_0@ == "Device not found: "@ + name@,
{
    assert forall|i: int| #[trigger] has_name(names@, i, name@) == is_named(names@, i, name@) by {}
    if picked is Err {
        assert forall|i: int| 0 <= i < names@.len() implies !#[trigger] has_name(
            names@,
            i,
            name@,
        ) by {
            assert(!is_named(names@, i, name@));
        }
    } else {
        let at = picked->Ok_0->At_0;
        assert(has_name(names@, at as int, name@));
        assert forall|i: int| 0 <= i < at implies !#[trigger] has_name(names@, i, name@) by {
            assert(!is_named(names@, i, name@));
        }
    }
}

/// If the devices cannot be listed, a pick by name fails for that reason.
pub proof fn law_pick_without_list(
    name: &str,
    default_present: bool,
    failure: String,
    picked: Result<Picked, String>,
)
    requires
        call_ensures(pick_device, (Some(name), default_present, Err(failure)), picked),
        name@.len() > 0,
        name@ != "Default"@,
    ensures
        picked is Err,
        picked->Err_0@ == failure@,
{
}

} // verus!
