//! What the bot does with a command from the dashboard: the configuration
//! change, the writes to the key-value store, and the log line.
use vstd::prelude::*;
use vstd::string::StringExecFns;
use crate::json::{decoded_map, encode_string_map};
use crate::registry::{
    append_item_fields, edit_plugin, remove_item_fields, save_value_fields, update_item_fields,
    PluginRegistry,
};
use crate::config::{lemma_stored_items_are_read_list, stored_items};
use crate::perms::decoded_items;
use crate::storage::{
    append_writes, append_writes_spec, apply_writes, config_key, config_key_spec, count_of,
    delete_writes, delete_writes_spec, law_append_then_read, law_delete_then_read, list_count_key_spec,
    list_item_key, list_item_key_spec, lookup, read_list, survivors,
};
use crate::strmap::StrMap;
use crate::text::{decimal_string, push_decimal};
use crate::types::FieldView;

verus! {

/// The stored count, as text, if any.
pub open spec fn opt_text(s: Option<&str>) -> Option<Seq<char>> {
    match s {
        Some(t) => Some(t@),
        None => None,
    }
}

/// Saves `value` as the setting `key` of `plugin`: the value shown for the
/// first field with that key changes, and the value is written to the
/// store under the setting's key. Returns that write and the log line.
pub fn save_config(registry: &mut PluginRegistry, plugin: &str, key: &str, value: String) -> (r: (
    (String, String),
    String,
))
    ensures
        final(registry)@ == edit_plugin(
            old(registry)@,
            plugin@,
            |fs: Seq<FieldView>| save_value_fields(fs, key@, value@),
        ),
        r.0.0@ == config_key_spec(plugin@, key@),
        r.0.1@ == value@,
        r.1@ == "Saved config: "@ + config_key_spec(plugin@, key@) + " -> "@ + value@,
{
    let db_key = config_key(plugin, key);
    let mut log = "Saved config: ".to_owned();
    log.append(db_key.as_str());
    log.append(" -> ");
    log.append(value.as_str());
    registry.save_value(plugin, key, value.clone());
    ((db_key, value), log)
}

/// Appends `item` to the list setting `key` of `plugin`, given the count
/// stored now: the item joins the first list field with that key, and is
/// written, as JSON, to the next slot, followed by the new count. Returns
/// the writes and the log line.
pub fn append_list_item(
    registry: &mut PluginRegistry,
    plugin: &str,
    key: &str,
    item: StrMap,
    stored_count: Option<&str>,
) -> (r: (Vec<(String, String)>, String))
    requires
        count_of(opt_text(stored_count)) < usize::MAX,
    ensures
        final(registry)@ == edit_plugin(
            old(registry)@,
            plugin@,
            |fs: Seq<FieldView>| append_item_fields(fs, key@, item@),
        ),
        r.0.deep_view().len() == 2,
        r.0.deep_view()[0].0 == list_item_key_spec(plugin@, key@, count_of(opt_text(stored_count))),
        decoded_map(r.0.deep_view()[0].1) == Some(item@),
        r.0.deep_view()[1] == (
            list_count_key_spec(plugin@, key@),
            decimal_string(count_of(opt_text(stored_count)) + 1),
        ),
        r.1@ == "List item appended: "@ + plugin@ + ":"@ + key@,
{
    let json = encode_string_map(&item);
    let ghost jv = json@;
    let writes = append_writes(plugin, key, stored_count, json);
    assert(writes.deep_view()[0].1 == jv);
    let mut log = "List item appended: ".to_owned();
    log.append(plugin);
    log.append(":");
    log.append(key);
    registry.append_item(plugin, key, item);
    (writes, log)
}

/// Replaces item `index` of the list setting `key` of `plugin`: the item
/// changes in the first list field with that key when it has such an
/// item, and is written, as JSON, to its slot. Returns the write and the
/// log line.
pub fn update_list_item(
    registry: &mut PluginRegistry,
    plugin: &str,
    key: &str,
    index: usize,
    item: StrMap,
) -> (r: ((String, String), String))
    ensures
        final(registry)@ == edit_plugin(
            old(registry)@,
            plugin@,
            |fs: Seq<FieldView>| update_item_fields(fs, key@, index as nat, item@),
        ),
        r.0.0@ == list_item_key_spec(plugin@, key@, index as nat),
        decoded_map(r.0.1@) == Some(item@),
        r.1@ == "List item updated: "@ + plugin@ + ":"@ + key@ + "["@ + decimal_string(index as nat) + "]"@,
{
    let slot = list_item_key(plugin, key, index);
    let json = encode_string_map(&item);
    let mut log = "List item updated: ".to_owned();
    log.append(plugin);
    log.append(":");
    log.append(key);
    log.append("[");
    push_decimal(&mut log, index as u64);
    log.append("]");
    registry.update_item(plugin, key, index, item);
    ((slot, json), log)
}

/// Deletes item `index` of the list setting `key` of `plugin`, given what
/// each slot below the stored count holds. Where `index` is below the
/// count, the surviving items are packed into the first slots, the count
/// is rewritten, and the item leaves the first list field with that key
/// when it has it; otherwise nothing changes. Returns the writes, if any,
/// and the log line.
pub fn delete_list_item(
    registry: &mut PluginRegistry,
    plugin: &str,
    key: &str,
    index: usize,
    slots: &Vec<Option<String>>,
) -> (r: (Option<Vec<(String, String)>>, String))
    ensures
        match r.0 {
            Some(w) => index < slots.len() && w.deep_view() == delete_writes_spec(
                plugin@,
                key@,
                slots.deep_view(),
                index as nat,
            ) && final(registry)@ == edit_plugin(
                old(registry)@,
                plugin@,
                |fs: Seq<FieldView>| remove_item_fields(fs, key@, index as nat),
            ),
            None => index >= slots.len() && final(registry)@ == old(registry)@,
        },
        r.1@ == "List item deleted: "@ + plugin@ + ":"@ + key@ + "["@ + decimal_string(index as nat) + "]"@,
{
    let writes = delete_writes(plugin, key, slots, index);
    if writes.is_some() {
        registry.remove_item(plugin, key, index);
    }
    let mut log = "List item deleted: ".to_owned();
    log.append(plugin);
    log.append(":");
    log.append(key);
    log.append("[");
    push_decimal(&mut log, index as u64);
    log.append("]");
    (writes, log)
}

/// Law: once the writes of appending an item are made, the list setting
/// holds what it held before with that item at its end; this is what the
/// plugin's configuration shows after it registers again.
pub proof fn law_appended_item_is_read_back(
    store: Map<Seq<char>, Seq<char>>,
    plugin: Seq<char>,
    key: Seq<char>,
    text: Seq<char>,
    item: Map<Seq<char>, Seq<char>>,
)
    requires
        count_of(lookup(store, list_count_key_spec(plugin, key))) < usize::MAX,
        decoded_map(text) == Some(item),
    ensures
        stored_items(
            apply_writes(store, append_writes_spec(plugin, key, lookup(store, list_count_key_spec(plugin, key)), text)),
            plugin,
            key,
        ) == stored_items(store, plugin, key).push(item),
{
    let after = apply_writes(store, append_writes_spec(plugin, key, lookup(store, list_count_key_spec(plugin, key)), text));
    law_append_then_read(store, plugin, key, text);
    lemma_stored_items_are_read_list(store, plugin, key);
    lemma_stored_items_are_read_list(after, plugin, key);
    let before = read_list(store, plugin, key);
    let m = before.push(text).map_values(|t: Seq<char>| Some(t));
    assert(m.drop_last() =~= before.map_values(|t: Seq<char>| Some(t)));
    assert(m.last() == Some(text));
}

/// Law: once the writes of deleting a slot are made, the list setting holds
/// exactly the surviving items that decode, in their order.
pub proof fn law_deleted_item_is_gone(
    store: Map<Seq<char>, Seq<char>>,
    plugin: Seq<char>,
    key: Seq<char>,
    slots: Seq<Option<Seq<char>>>,
    index: nat,
)
    requires
        slots.len() <= usize::MAX,
    ensures
        stored_items(apply_writes(store, delete_writes_spec(plugin, key, slots, index)), plugin, key)
            == decoded_items(survivors(slots, index).map_values(|t: Seq<char>| Some(t))),
{
    let after = apply_writes(store, delete_writes_spec(plugin, key, slots, index));
    law_delete_then_read(store, plugin, key, slots, index);
    lemma_stored_items_are_read_list(after, plugin, key);
}

} // verus!
