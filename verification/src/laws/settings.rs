//! The settings and the changes to the store.

use vstd::prelude::*;

use crate::json::{json_of, Json};
use crate::settings::{
    changes, found_at, found_members, get_api_key, get_settings, get_str, reset_changes,
    reset_settings, set_api_key, set_settings, setting_keys, setting_names, Change, StoreOp,
    API_KEY, DEVICE_NAME, LANGUAGE, SHORTCUT, STORE_FILE,
};
use crate::words::texts;

verus! {

/// The file of the store, and the names under which single settings are read.
pub proof fn law_store_names()
    ensures
        STORE_FILE@ == "settings.json"@,
        API_KEY@ == "api_key"@,
        DEVICE_NAME@ == "device_name"@,
        LANGUAGE@ == "language"@,
        SHORTCUT@ == "shortcut"@,
{
}

/// The setting at an index of the list has the given name, of these nine.
pub open spec fn is_setting(at: int, name: Seq<char>) -> bool {
    ||| at == 0 && name == "api_key"@
    ||| at == 1 && name == "device_name"@
    ||| at == 2 && name == "language"@
    ||| at == 3 && name == "opacity"@
    ||| at == 4 && name == "font_size"@
    ||| at == 5 && name == "max_words"@
    ||| at == 6 && name == "auto_start"@
    ||| at == 7 && name == "shortcut"@
    ||| at == 8 && name == "show_advanced"@
}

/// The names of the settings are these nine, in this order.
pub proof fn law_setting_keys(keys: Vec<String>)
    requires
        call_ensures(setting_keys, (), keys),
    ensures
        keys@.len() == 9,
        forall|i: int| 0 <= i < 9 ==> is_setting(i, (#[trigger] keys@[i])@),
{
    assert forall|i: int| 0 <= i < 9 implies is_setting(i, (#[trigger] keys@[i])@) by {
        assert(texts(keys@)[i] == keys@[i]@);
        assert(i == 0 || i == 1 || i == 2 || i == 3 || i == 4 || i == 5 || i == 6 || i == 7 || i
            == 8);
    }
}

proof fn lemma_setting_names(one: int, other: int, name: Seq<char>)
    ensures
        is_setting(one, name) && is_setting(other, name) ==> one == other,
        is_setting(one, name) ==> 0 <= one < 9 && setting_names()[one] == name,
        0 <= one < 9 ==> is_setting(one, setting_names()[one]),
        setting_names().len() == 9,
{
    reveal_strlit("api_key");
    reveal_strlit("device_name");
    reveal_strlit("language");
    reveal_strlit("opacity");
    reveal_strlit("font_size");
    reveal_strlit("max_words");
    reveal_strlit("auto_start");
    reveal_strlit("shortcut");
    reveal_strlit("show_advanced");
    assert("api_key"@.len() == 7 && "api_key"@[0] == 'a');
    assert("device_name"@.len() == 11);
    assert("language"@.len() == 8 && "language"@[0] == 'l');
    assert("opacity"@.len() == 7 && "opacity"@[0] == 'o');
    assert("font_size"@.len() == 9 && "font_size"@[0] == 'f');
    assert("max_words"@.len() == 9 && "max_words"@[0] == 'm');
    assert("auto_start"@.len() == 10);
    assert("shortcut"@.len() == 8 && "shortcut"@[0] == 's');
    assert("show_advanced"@.len() == 13);
}

/// The members are the values found under the settings with an index below
/// `count`, each under the name of its setting.
spec fn are_found(
    members: Map<Seq<char>, Json>,
    found: Seq<Option<serde_json::Value>>,
    count: int,
) -> bool {
    &&& forall|i: int, name: Seq<char>|
        0 <= i < count && i < found.len() && #[trigger] is_setting(i, name)
            && found[i] is Some ==> members.contains_key(name) && members[name] == json_of(
            found[i]->0,
        )
    &&& forall|name: Seq<char>| #[trigger]
        members.contains_key(name) ==> exists|i: int|
            0 <= i < count && i < found.len() && #[trigger] is_setting(i, name)
                && found[i] is Some
}

proof fn lemma_are_found(found: Seq<Option<serde_json::Value>>, count: nat)
    requires
        count <= 9,
    ensures
        are_found(found_members(found, count), found, count as int),
    decreases count,
{
    if count > 0 {
        let at = count - 1;
        lemma_are_found(found, (count - 1) as nat);
        let before = found_members(found, (count - 1) as nat);
        let members = found_members(found, count);
        lemma_setting_names(at, at, setting_names()[at]);
        assert forall|i: int, name: Seq<char>|
            0 <= i < count && i < found.len() && #[trigger] is_setting(i, name)
                && found[i] is Some implies members.contains_key(name) && members[name] == json_of(
            found[i]->0,
        ) by {
            lemma_setting_names(i, at, name);
            if i < at {
                assert(name != setting_names()[at]);
            }
        }
        assert forall|name: Seq<char>| #[trigger]
            members.contains_key(name) implies exists|i: int|
            0 <= i < count && i < found.len() && #[trigger] is_setting(i, name)
                && found[i] is Some by {
            if before.contains_key(name) {
                let i = choose|i: int|
                    0 <= i < at && i < found.len() && #[trigger] is_setting(i, name)
                        && found[i] is Some;
                assert(is_setting(i, name));
            } else {
                assert(name == setting_names()[at]);
                assert(is_setting(at, name));
                assert(found_at(found, at) is Some);
            }
        }
    }
}

/// The settings are an object with exactly the values that were found, each
/// under the name of its setting.
pub proof fn law_get_settings(
    found: Vec<Option<serde_json::Value>>,
    settings: serde_json::Value,
)
    requires
        call_ensures(get_settings, (found,), settings),
    ensures
        json_of(settings) is Object,
        forall|i: int, name: Seq<char>|
            i < found@.len() && #[trigger] is_setting(i, name) ==> {
                let members = json_of(settings)->Object_0;
                &&& members.contains_key(name) <==> found@[i] is Some
                &&& found@[i] is Some ==> members[name] == json_of(found@[i]->0)
            },
        forall|name: Seq<char>| #[trigger]
            json_of(settings)->Object_0.contains_key(name) ==> exists|i: int|
                0 <= i < found@.len() && #[trigger] is_setting(i, name) && found@[i] is Some,
{
    lemma_are_found(found@, 9);
    let members = json_of(settings)->Object_0;
    assert forall|i: int, name: Seq<char>|
        i < found@.len() && #[trigger] is_setting(i, name) implies {
        &&& members.contains_key(name) <==> found@[i] is Some
        &&& found@[i] is Some ==> members[name] == json_of(found@[i]->0)
    } by {
        lemma_setting_names(i, i, name);
        if members.contains_key(name) {
            let j = choose|j: int|
                0 <= j < 9 && j < found@.len() && #[trigger] is_setting(j, name)
                    && found@[j] is Some;
            lemma_setting_names(i, j, name);
        }
    }
    assert forall|name: Seq<char>| #[trigger] members.contains_key(name) implies exists|i: int|
        0 <= i < found@.len() && #[trigger] is_setting(i, name) && found@[i] is Some by {
        let i = choose|i: int|
            0 <= i < 9 && i < found@.len() && #[trigger] is_setting(i, name) && found@[i] is Some;
        assert(is_setting(i, name));
    }
}

/// What is read of a store are its settings, all of them and as they are, and
/// nothing else.
pub proof fn law_stored_settings_are_read(
    store: Map<Seq<char>, Json>,
    found: Vec<Option<serde_json::Value>>,
    settings: serde_json::Value,
)
    requires
        call_ensures(get_settings, (found,), settings),
        found@.len() == 9,
        forall|i: int, name: Seq<char>| #[trigger]
            is_setting(i, name) ==> (match found@[i] {
                Some(value) => store.contains_key(name) && store[name] == json_of(value),
                None => !store.contains_key(name),
            }),
    ensures
        json_of(settings) is Object,
        forall|i: int, name: Seq<char>| #[trigger]
            is_setting(i, name) ==> {
                let members = json_of(settings)->Object_0;
                &&& members.contains_key(name) <==> store.contains_key(name)
                &&& members.contains_key(name) ==> members[name] == store[name]
            },
        forall|name: Seq<char>| #[trigger]
            json_of(settings)->Object_0.contains_key(name) ==> exists|i: int| #[trigger]
                is_setting(i, name),
{
    law_get_settings(found, settings);
    assert forall|i: int, name: Seq<char>| #[trigger] is_setting(i, name) implies {
        let members = json_of(settings)->Object_0;
        &&& members.contains_key(name) <==> store.contains_key(name)
        &&& members.contains_key(name) ==> members[name] == store[name]
    } by {
        lemma_setting_names(i, i, name);
        assert(i < found@.len());
    }
}

/// An object is stored by one change for each of its members, which puts its
/// value under its name, and then by saving.
pub proof fn law_set_settings(values: serde_json::Value, ops: Vec<StoreOp>)
    requires
        call_ensures(set_settings, (values,), ops),
        json_of(values) is Object,
    ensures
        ops@.len() > 0,
        ops@.last() is Save,
        forall|i: int|
            0 <= i < ops@.len() - 1 ==> {
                let members = json_of(values)->Object_0;
                &&& (#[trigger] ops@[i]) is Put
                &&& members.contains_key(ops@[i]->Put_0@)
                &&& members[ops@[i]->Put_0@] == json_of(ops@[i]->Put_1)
            },
        forall|i: int, j: int|
            0 <= i < j < ops@.len() - 1 ==> (#[trigger] ops@[i])->Put_0@ != (
            #[trigger] ops@[j])->Put_0@,
        forall|name: Seq<char>| #[trigger]
            json_of(values)->Object_0.contains_key(name) ==> exists|i: int|
                0 <= i < ops@.len() - 1 && (#[trigger] ops@[i])->Put_0@ == name,
{
    let members = json_of(values)->Object_0;
    let list = changes(ops@);
    assert(list.len() == ops@.len());
    assert(list.last() == ops@.last()@);
    assert forall|i: int| 0 <= i < ops@.len() implies list[i] == (#[trigger] ops@[i])@ by {}
    assert forall|i: int| 0 <= i < ops@.len() - 1 implies {
        &&& (#[trigger] ops@[i]) is Put
        &&& members.contains_key(ops@[i]->Put_0@)
        &&& members[ops@[i]->Put_0@] == json_of(ops@[i]->Put_1)
        &&& list[i]->Put_0 == ops@[i]->Put_0@
    } by {
        assert(list[i] is Put);
    }
    assert forall|i: int, j: int| 0 <= i < j < ops@.len() - 1 implies (
    #[trigger] ops@[i])->Put_0@ != (#[trigger] ops@[j])->Put_0@ by {
        assert(list[i]->Put_0 != list[j]->Put_0);
    }
    assert forall|name: Seq<char>| #[trigger] members.contains_key(name) implies exists|i: int|
        0 <= i < ops@.len() - 1 && (#[trigger] ops@[i])->Put_0@ == name by {
        let i = choose|i: int| 0 <= i < list.len() - 1 && (#[trigger] list[i])->Put_0 == name;
        assert(ops@[i]->Put_0@ == name);
    }
}

/// Anything but an object changes nothing in the store, which is saved all the
/// same.
pub proof fn law_set_no_settings(values: serde_json::Value, ops: Vec<StoreOp>)
    requires
        call_ensures(set_settings, (values,), ops),
        !(json_of(values) is Object),
    ensures
        ops@.len() == 1,
        ops@[0] is Save,
{
    assert(changes(ops@).len() == ops@.len());
    assert(changes(ops@)[0] == ops@[0]@);
}

/// A reset deletes each setting, and then saves.
pub proof fn law_reset_settings(ops: Vec<StoreOp>)
    requires
        call_ensures(reset_settings, (), ops),
    ensures
        ops@.len() == 10,
        forall|i: int|
            0 <= i < 9 ==> (#[trigger] ops@[i]) is Delete && is_setting(i, ops@[i]->Delete_0@),
        ops@[9] is Save,
{
    let list = changes(ops@);
    lemma_setting_names(0, 0, setting_names()[0]);
    assert(list.len() == ops@.len());
    assert(reset_changes().len() == 10);
    assert(list[9] == ops@[9]@);
    assert forall|i: int| 0 <= i < 9 implies (#[trigger] ops@[i]) is Delete && is_setting(
        i,
        ops@[i]->Delete_0@,
    ) by {
        assert(list[i] == ops@[i]@);
        assert(reset_changes()[i] == Change::Delete(setting_names()[i]));
        lemma_setting_names(i, i, setting_names()[i]);
    }
}

/// A text is read as it is; nothing is read of any other value, nor of none.
pub proof fn law_get_str(found: &Option<serde_json::Value>, text: Option<String>)
    requires
        call_ensures(get_str, (found,), text),
    ensures
        text is Some <==> found is Some && json_of(found->0) is Text,
        text is Some ==> json_of(found->0) == Json::Text(text->0@),
{
}

/// The API key is read as any text is.
pub proof fn law_get_api_key(found: &Option<serde_json::Value>, key: Option<String>)
    requires
        call_ensures(get_api_key, (found,), key),
    ensures
        key is Some <==> found is Some && json_of(found->0) is Text,
        key is Some ==> json_of(found->0) == Json::Text(key->0@),
{
}

/// An API key is put under its name, as it is, and the store is saved.
pub proof fn law_set_api_key(key: String, ops: Vec<StoreOp>)
    requires
        call_ensures(set_api_key, (key,), ops),
    ensures
        ops@.len() == 2,
        ops@[0] is Put,
        ops@[0]->Put_0@ == "api_key"@,
        json_of(ops@[0]->Put_1) == Json::Text(key@),
        ops@[1] is Save,
{
    let list = changes(ops@);
    assert(list.len() == ops@.len());
    assert(list[0] == ops@[0]@);
    assert(list[1] == ops@[1]@);
}

} // verus!
