//! The settings, and the changes to the store that keeps them.

use vstd::prelude::*;

use crate::json::{
    insert_member, into_entries, into_members, json_of, members_of, new_members, object_value,
    text_value, Json,
};
use crate::words::texts;

verus! {

/// The file that keeps the settings.
pub const STORE_FILE: &'static str = "settings.json";

/// The setting that holds the API key.
pub const API_KEY: &'static str = "api_key";

/// The setting that holds the name of the device to record from.
pub const DEVICE_NAME: &'static str = "device_name";

/// The setting that holds the language that speech is expected in.
pub const LANGUAGE: &'static str = "language";

/// The setting that holds the text of the shortcut.
pub const SHORTCUT: &'static str = "shortcut";

/// The number of settings.
pub const SETTING_COUNT: usize = 9;

/// The names of the settings.
pub open spec fn setting_names() -> Seq<Seq<char>> {
    seq![
        "api_key"@,
        "device_name"@,
        "language"@,
        "opacity"@,
        "font_size"@,
        "max_words"@,
        "auto_start"@,
        "shortcut"@,
        "show_advanced"@,
    ]
}

/// The names of the settings.
pub fn setting_keys() -> (keys: Vec<String>)
    ensures
        texts(keys@) == setting_names(),
        keys@.len() == SETTING_COUNT,
{
    let mut keys: Vec<String> = Vec::new();
    keys.push("api_key".to_string());
    keys.push("device_name".to_string());
    keys.push("language".to_string());
    keys.push("opacity".to_string());
    keys.push("font_size".to_string());
    keys.push("max_words".to_string());
    keys.push("auto_start".to_string());
    keys.push("shortcut".to_string());
    keys.push("show_advanced".to_string());
    assert(texts(keys@) == setting_names());
    keys
}

/// One change to the store.
#[derive(Debug)]
pub enum StoreOp {
    /// The key has this value from now on.
    Put(String, serde_json::Value),
    /// The key has no value any more.
    Delete(String),
    /// The store is written to its file.
    Save,
}

/// What a change to the store says.
pub enum Change {
    Put(Seq<char>, Json),
    Delete(Seq<char>),
    Save,
}

impl View for StoreOp {
    type V = Change;

    open spec fn view(&self) -> Change {
        match self {
            StoreOp::Put(key, value) => Change::Put(key@, json_of(*value)),
            StoreOp::Delete(key) => Change::Delete(key@),
            StoreOp::Save => Change::Save,
        }
    }
}

/// The views of a list of changes.
pub open spec fn changes(ops: Seq<StoreOp>) -> Seq<Change> {
    ops.map_values(|op: StoreOp| op@)
}

/// What the store holds after one change.
pub open spec fn after_change(store: Map<Seq<char>, Json>, change: Change) -> Map<
    Seq<char>,
    Json,
> {
    match change {
        Change::Put(key, value) => store.insert(key, value),
        Change::Delete(key) => store.remove(key),
        Change::Save => store,
    }
}

/// What the store holds after the changes, made in order.
pub open spec fn after(store: Map<Seq<char>, Json>, list: Seq<Change>) -> Map<Seq<char>, Json>
    decreases list.len(),
{
    if list.len() == 0 {
        store
    } else {
        after_change(after(store, list.drop_last()), list.last())
    }
}

/// The settings that the store holds.
pub open spec fn settings_in(store: Map<Seq<char>, Json>) -> Map<Seq<char>, Json> {
    store.restrict(setting_names().to_set())
}

/// The value was read from the store under the given key.
pub open spec fn read_from(
    found: Option<serde_json::Value>,
    store: Map<Seq<char>, Json>,
    key: Seq<char>,
) -> bool {
    match found {
        Some(value) => store.contains_key(key) && store[key] == json_of(value),
        None => !store.contains_key(key),
    }
}

/// The value that was found under a setting, by the number of its name. Where
/// the list ends nothing was found.
pub open spec fn found_at(found: Seq<Option<serde_json::Value>>, at: int) -> Option<
    serde_json::Value,
> {
    if at < found.len() {
        found[at]
    } else {
        None
    }
}

/// The members of the values that were found under the first `count` names of
/// settings.
pub open spec fn found_members(found: Seq<Option<serde_json::Value>>, count: nat) -> Map<
    Seq<char>,
    Json,
>
    decreases count,
{
    if count == 0 {
        Map::empty()
    } else {
        let before = found_members(found, (count - 1) as nat);
        match found_at(found, count - 1) {
            Some(value) => before.insert(setting_names()[count - 1], json_of(value)),
            None => before,
        }
    }
}

/// The settings as one JSON object, from the values that were found under
/// their names, in the order of the names.
pub fn get_settings(found: Vec<Option<serde_json::Value>>) -> (settings: serde_json::Value)
    ensures
        json_of(settings) == Json::Object(found_members(found@, SETTING_COUNT as nat)),
{
    let keys = setting_keys();
    let ghost all = found@;
    let mut found = found;
    let mut map = new_members();
    let mut count: usize = 0;
    while count < SETTING_COUNT
        invariant
            count <= SETTING_COUNT,
            keys@.len() == SETTING_COUNT,
            texts(keys@) == setting_names(),
            found@.len() == all.len(),
            forall|i: int| count <= i < all.len() ==> found@[i] == #[trigger] all[i],
            members_of(map) == found_members(all, count as nat),
        decreases SETTING_COUNT - count,
    {
        let mut value: Option<serde_json::Value> = None;
        if count < found.len() {
            std::mem::swap(&mut value, &mut found[count]);
        }
        assert(value == found_at(all, count as int));
        if let Some(value) = value {
            assert(texts(keys@)[count as int] == keys@[count as int]@);
            insert_member(&mut map, keys[count].clone(), value);
        }
        count += 1;
    }
    object_value(map)
}

/// The changes put each member of an object in the store and then save it, and
/// do nothing else.
pub open spec fn puts_members(list: Seq<Change>, members: Map<Seq<char>, Json>) -> bool {
    &&& list.len() > 0
    &&& list.last() is Save
    &&& forall|i: int|
        0 <= i < list.len() - 1 ==> {
            &&& #[trigger] list[i] is Put
            &&& members.contains_key(list[i]->Put_0)
            &&& members[list[i]->Put_0] == list[i]->Put_1
        }
    &&& forall|i: int, j: int|
        0 <= i < j < list.len() - 1 ==> (#[trigger] list[i])->Put_0 != (#[trigger] list[j])->Put_0
    &&& forall|key: Seq<char>| #[trigger]
        members.contains_key(key) ==> exists|i: int|
            0 <= i < list.len() - 1 && (#[trigger] list[i])->Put_0 == key
}

/// The changes that take the given values into the store: every member of an
/// object. Values of another kind change nothing. The store is saved in any
/// case.
pub fn set_settings(values: serde_json::Value) -> (ops: Vec<StoreOp>)
    ensures
        match json_of(values) {
            Json::Object(members) => puts_members(changes(ops@), members),
            _ => changes(ops@) == seq![Change::Save],
        },
{
    let mut ops: Vec<StoreOp> = Vec::new();
    if let Some(map) = into_members(values) {
        let ghost members = members_of(map);
        let mut entries = into_entries(map);
        let ghost all = entries@;
        while entries.len() > 0
            invariant
                ops@.len() <= all.len(),
                entries@ == all.skip(ops@.len() as int),
                forall|i: int|
                    0 <= i < ops@.len() ==> (#[trigger] ops@[i])@ == Change::Put(
                        all[i].0@,
                        json_of(all[i].1),
                    ),
            decreases entries@.len(),
        {
            let (key, value) = entries.remove(0);
            ops.push(StoreOp::Put(key, value));
        }
        ops.push(StoreOp::Save);
        proof {
            let list = changes(ops@);
            assert(list.len() == all.len() + 1);
            assert forall|i: int| 0 <= i < all.len() implies #[trigger] list[i] == Change::Put(
                all[i].0@,
                json_of(all[i].1),
            ) by {
                assert(list[i] == ops@[i]@);
            }
            assert(list.last() == ops@.last()@);
            assert forall|key: Seq<char>| #[trigger]
                members.contains_key(key) implies exists|i: int|
                0 <= i < list.len() - 1 && (#[trigger] list[i])->Put_0 == key by {
                let i = choose|i: int| 0 <= i < all.len() && (#[trigger] all[i]).0@ == key;
                assert(list[i]->Put_0 == key);
            }
            assert(puts_members(list, members));
        }
    } else {
        ops.push(StoreOp::Save);
        assert(changes(ops@) == seq![Change::Save]);
    }
    ops
}

/// The changes that forget all settings.
pub open spec fn reset_changes() -> Seq<Change> {
    setting_names().map_values(|name: Seq<char>| Change::Delete(name)).push(Change::Save)
}

/// The changes that forget all settings: each is deleted, and the store saved.
pub fn reset_settings() -> (ops: Vec<StoreOp>)
    ensures
        changes(ops@) == reset_changes(),
{
    let keys = setting_keys();
    let mut ops: Vec<StoreOp> = Vec::new();
    let mut at: usize = 0;
    while at < keys.len()
        invariant
            at <= keys.len(),
            keys@.len() == setting_names().len(),
            texts(keys@) == setting_names(),
            ops@.len() == at,
            forall|i: int|
                0 <= i < at ==> (#[trigger] ops@[i])@ == Change::Delete(setting_names()[i]),
        decreases keys.len() - at,
    {
        assert(texts(keys@)[at as int] == keys@[at as int]@);
        ops.push(StoreOp::Delete(keys[at].clone()));
        at += 1;
    }
    ops.push(StoreOp::Save);
    assert(changes(ops@) == reset_changes());
    ops
}

/// The text that a value holds, if it is one.
pub open spec fn text_held(found: Option<Json>) -> Option<Seq<char>> {
    match found {
        Some(Json::Text(text)) => Some(text),
        _ => None,
    }
}

/// What was found, as data.
pub open spec fn data_of(found: Option<serde_json::Value>) -> Option<Json> {
    match found {
        Some(value) => Some(json_of(value)),
        None => None,
    }
}

/// The characters of a text that may be missing.
pub open spec fn chars_held(text: Option<String>) -> Option<Seq<char>> {
    match text {
        Some(text) => Some(text@),
        None => None,
    }
}

/// The text that was found, if a text was.
pub fn get_str(found: &Option<serde_json::Value>) -> (text: Option<String>)
    ensures
        chars_held(text) == text_held(data_of(*found)),
{
    match found {
        Some(value) => match value.as_str() {
            Some(text) => Some(text.to_string()),
            None => None,
        },
        None => None,
    }
}

/// The API key, from the value that was found under its name.
pub fn get_api_key(found: &Option<serde_json::Value>) -> (key: Option<String>)
    ensures
        chars_held(key) == text_held(data_of(*found)),
{
    get_str(found)
}

/// The changes that keep an API key.
pub open spec fn api_key_changes(key: Seq<char>) -> Seq<Change> {
    seq![Change::Put(API_KEY@, Json::Text(key)), Change::Save]
}

/// The changes that keep an API key: it is put in the store, which is saved.
pub fn set_api_key(key: String) -> (ops: Vec<StoreOp>)
    ensures
        changes(ops@) == api_key_changes(key@),
{
    let mut ops: Vec<StoreOp> = Vec::new();
    let ghost held = key@;
    ops.push(StoreOp::Put(API_KEY.to_string(), text_value(key)));
    ops.push(StoreOp::Save);
    assert(changes(ops@) == api_key_changes(held));
    ops
}

/// The value under a key of the store, if there is one.
pub open spec fn value_at(store: Map<Seq<char>, Json>, key: Seq<char>) -> Option<Json> {
    if store.contains_key(key) {
        Some(store[key])
    } else {
        None
    }
}

/// Values read from the store under the names of the settings are the settings
/// that it holds.
pub proof fn law_settings_are_what_is_stored(
    found: Seq<Option<serde_json::Value>>,
    store: Map<Seq<char>, Json>,
)
    requires
        forall|i: int|
            0 <= i < SETTING_COUNT ==> read_from(
                #[trigger] found_at(found, i),
                store,
                setting_names()[i],
            ),
    ensures
        found_members(found, SETTING_COUNT as nat) == settings_in(store),
{
    lemma_found_members(found, store, SETTING_COUNT as nat);
    let members = found_members(found, SETTING_COUNT as nat);
    assert forall|key: Seq<char>| #[trigger] members.contains_key(key) <==> settings_in(
        store,
    ).contains_key(key) by {
        if settings_in(store).contains_key(key) {
            let i = choose|i: int| 0 <= i < setting_names().len() && setting_names()[i] == key;
            assert(read_from(found_at(found, i), store, setting_names()[i]));
        }
    }
    assert(members =~= settings_in(store));
}

proof fn lemma_found_members(
    found: Seq<Option<serde_json::Value>>,
    store: Map<Seq<char>, Json>,
    count: nat,
)
    requires
        count <= SETTING_COUNT,
        forall|i: int|
            0 <= i < SETTING_COUNT ==> read_from(
                #[trigger] found_at(found, i),
                store,
                setting_names()[i],
            ),
    ensures
        forall|i: int|
            0 <= i < count && #[trigger] found_at(found, i) is Some ==> found_members(
                found,
                count,
            ).contains_key(setting_names()[i]),
        forall|key: Seq<char>| #[trigger]
            found_members(found, count).contains_key(key) ==> {
                &&& setting_names().contains(key)
                &&& store.contains_key(key)
                &&& found_members(found, count)[key] == store[key]
            },
    decreases count,
{
    if count > 0 {
        lemma_found_members(found, store, (count - 1) as nat);
        let before = found_members(found, (count - 1) as nat);
        let name = setting_names()[count - 1];
        assert(read_from(found_at(found, count - 1), store, name));
        assert(setting_names().contains(name));
        assert forall|key: Seq<char>| #[trigger]
            found_members(found, count).contains_key(key) implies setting_names().contains(key)
            && store.contains_key(key) && found_members(found, count)[key] == store[key] by {
            if key != name || found_at(found, count - 1) is None {
                assert(before.contains_key(key));
            }
        }
    }
}

/// What the store holds after the first changes of an update: what they put,
/// and the rest as it was.
proof fn lemma_after_puts(
    store: Map<Seq<char>, Json>,
    list: Seq<Change>,
    members: Map<Seq<char>, Json>,
    count: nat,
)
    requires
        puts_members(list, members),
        count < list.len(),
    ensures
        forall|i: int|
            0 <= i < count ==> after(store, list.take(count as int)).contains_key(
                (#[trigger] list[i])->Put_0,
            ) && after(store, list.take(count as int))[list[i]->Put_0] == members[list[i]->Put_0],
        forall|key: Seq<char>|
            (forall|i: int| 0 <= i < count ==> (#[trigger] list[i])->Put_0 != key)
                ==> #[trigger] value_at(after(store, list.take(count as int)), key) == value_at(
                store,
                key,
            ),
    decreases count,
{
    if count > 0 {
        lemma_after_puts(store, list, members, (count - 1) as nat);
        let head = list.take(count as int);
        assert(head.drop_last() == list.take(count - 1));
        assert(head.last() == list[count - 1]);
        assert(list[count - 1] is Put);
        let before = after(store, list.take(count - 1));
        assert forall|key: Seq<char>|
            (forall|i: int| 0 <= i < count ==> (#[trigger] list[i])->Put_0
                != key) implies #[trigger] value_at(after(store, head), key) == value_at(
            store,
            key,
        ) by {
            assert(list[count - 1]->Put_0 != key);
            assert(value_at(before, key) == value_at(store, key));
        }
    }
}

/// A read gives back what was written: after an update each member of the
/// object is in the store, and whatever it does not name is as it was.
pub proof fn law_update_is_kept(
    store: Map<Seq<char>, Json>,
    list: Seq<Change>,
    members: Map<Seq<char>, Json>,
)
    requires
        puts_members(list, members),
    ensures
        after(store, list) == store.union_prefer_right(members),
        settings_in(after(store, list)) == settings_in(store).union_prefer_right(
            settings_in(members),
        ),
{
    let count = (list.len() - 1) as nat;
    lemma_after_puts(store, list, members, count);
    let put = list.take(count as int);
    assert(list.drop_last() == put);
    let result = after(store, list);
    assert(result == after(store, put));
    assert forall|key: Seq<char>| value_at(result, key) == #[trigger] value_at(
        store.union_prefer_right(members),
        key,
    ) by {
        if members.contains_key(key) {
            let i = choose|i: int| 0 <= i < list.len() - 1 && (#[trigger] list[i])->Put_0 == key;
            assert(result.contains_key(list[i]->Put_0));
        } else {
            assert forall|i: int| 0 <= i < count implies (#[trigger] list[i])->Put_0 != key by {
                assert(members.contains_key(list[i]->Put_0));
            }
        }
    }
    lemma_same_values(result, store.union_prefer_right(members));
    assert(settings_in(result) =~= settings_in(store).union_prefer_right(settings_in(members)));
}

proof fn lemma_same_values(one: Map<Seq<char>, Json>, other: Map<Seq<char>, Json>)
    requires
        forall|key: Seq<char>| value_at(one, key) == #[trigger] value_at(other, key),
    ensures
        one == other,
{
    assert forall|key: Seq<char>| #[trigger] one.contains_key(key) <==> other.contains_key(
        key,
    ) by {
        assert(value_at(one, key) == value_at(other, key));
    }
    assert forall|key: Seq<char>| #[trigger] one.contains_key(key) implies one[key]
        == other[key] by {
        assert(value_at(one, key) == value_at(other, key));
    }
    assert(one =~= other);
}

proof fn lemma_after_deletes(store: Map<Seq<char>, Json>, names: Seq<Seq<char>>)
    ensures
        after(store, names.map_values(|name: Seq<char>| Change::Delete(name)))
            == store.remove_keys(names.to_set()),
    decreases names.len(),
{
    let delete = |name: Seq<char>| Change::Delete(name);
    let list = names.map_values(delete);
    if names.len() == 0 {
        assert(store.remove_keys(names.to_set()) =~= store);
    } else {
        let init = names.drop_last();
        lemma_after_deletes(store, init);
        assert(list.drop_last() == init.map_values(delete));
        assert(list.last() == Change::Delete(names.last()));
        assert forall|name: Seq<char>| names.contains(name) <==> (#[trigger] init.contains(name)
            || name == names.last()) by {
            if names.contains(name) && name != names.last() {
                let i = choose|i: int| 0 <= i < names.len() && names[i] == name;
                assert(init[i] == name);
            }
            if init.contains(name) {
                let i = choose|i: int| 0 <= i < init.len() && init[i] == name;
                assert(names[i] == name);
            }
            if name == names.last() {
                assert(names[names.len() - 1] == name);
            }
        }
        assert(store.remove_keys(init.to_set()).remove(names.last()) =~= store.remove_keys(
            names.to_set(),
        ));
    }
}

/// After a reset the store holds no setting, and everything else as it was.
pub proof fn law_reset_forgets_settings(store: Map<Seq<char>, Json>)
    ensures
        after(store, reset_changes()) == store.remove_keys(setting_names().to_set()),
        settings_in(after(store, reset_changes())) == Map::<Seq<char>, Json>::empty(),
{
    let deletes = setting_names().map_values(|name: Seq<char>| Change::Delete(name));
    lemma_after_deletes(store, setting_names());
    assert(reset_changes().drop_last() == deletes);
    assert(settings_in(after(store, reset_changes())) =~= Map::<Seq<char>, Json>::empty());
}

/// After a reset nothing is found under the name of a setting.
pub proof fn law_reset_leaves_nothing_to_read(
    store: Map<Seq<char>, Json>,
    key: Seq<char>,
    found: Option<serde_json::Value>,
)
    requires
        setting_names().contains(key),
        read_from(found, after(store, reset_changes()), key),
    ensures
        found is None,
        text_held(data_of(found)) is None,
{
    law_reset_forgets_settings(store);
}

/// The API key that is read is the one that was set last; nothing else in the
/// store changes with it.
pub proof fn law_api_key_is_kept(store: Map<Seq<char>, Json>, key: Seq<char>)
    ensures
        text_held(value_at(after(store, api_key_changes(key)), API_KEY@)) == Some(key),
        after(store, api_key_changes(key)) == store.insert(API_KEY@, Json::Text(key)),
{
    let list = api_key_changes(key);
    let put = list.drop_last();
    assert(put.drop_last() == Seq::<Change>::empty());
    assert(put.last() == Change::Put(API_KEY@, Json::Text(key)));
    assert(after(store, put.drop_last()) == store);
    assert(after(store, put) == store.insert(API_KEY@, Json::Text(key)));
}

} // verus!
