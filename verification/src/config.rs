//! Registering a plugin's configuration schema: the field descriptions a
//! plugin hands over become fields whose values come from the key-value
//! store, with defaults written back where nothing is stored yet.
use vstd::prelude::*;
use crate::perms::{decode_items, decoded_items};
use crate::storage::{
    apply_writes, config_key, config_key_spec, count_of, list_count_key, list_count_key_spec,
    list_item_key, list_item_key_spec, list_items_upto, lookup, read_list, stored_count,
};
use crate::strmap::StrMap;
use crate::text::{concat, same_text};
use crate::types::{ConfigField, ConfigItemSchema, ConfigType, FieldView, ItemSchemaView, PluginSchema};

verus! {

/// A sub-field of a list field as a plugin describes it; absent entries are `None`.
#[derive(Debug)]
pub struct RawSubField {
    pub key: Option<String>,
    pub name: Option<String>,
    pub kind: Option<String>,
}

/// A field as a plugin describes it. `default_text` is the default value
/// already written as text (empty when the plugin gives none).
#[derive(Debug)]
pub struct RawField {
    pub key: String,
    pub name: Option<String>,
    pub description: Option<String>,
    pub kind: Option<String>,
    pub default_text: String,
    pub item_schema: Vec<RawSubField>,
}

pub struct RawSubFieldView {
    pub key: Option<Seq<char>>,
    pub name: Option<Seq<char>>,
    pub kind: Option<Seq<char>>,
}

pub struct RawFieldView {
    pub key: Seq<char>,
    pub name: Option<Seq<char>>,
    pub description: Option<Seq<char>>,
    pub kind: Option<Seq<char>>,
    pub default_text: Seq<char>,
    pub item_schema: Seq<RawSubFieldView>,
}

impl View for RawSubField {
    type V = RawSubFieldView;

    open spec fn view(&self) -> RawSubFieldView {
        RawSubFieldView {
            key: self.key.deep_view(),
            name: self.name.deep_view(),
            kind: self.kind.deep_view(),
        }
    }
}

impl DeepView for RawSubField {
    type V = RawSubFieldView;

    open spec fn deep_view(&self) -> RawSubFieldView {
        self@
    }
}

impl View for RawField {
    type V = RawFieldView;

    open spec fn view(&self) -> RawFieldView {
        RawFieldView {
            key: self.key@,
            name: self.name.deep_view(),
            description: self.description.deep_view(),
            kind: self.kind.deep_view(),
            default_text: self.default_text@,
            item_schema: self.item_schema.deep_view(),
        }
    }
}

impl DeepView for RawField {
    type V = RawFieldView;

    open spec fn deep_view(&self) -> RawFieldView {
        self@
    }
}

/// The type a type name stands for; `list` only where lists are allowed
/// (not inside a list's items). Unknown names mean a string.
pub open spec fn kindd(s: Seq<char>, lists: bool) -> ConfigType {
    if s == "number"@ {
        ConfigType::Number
    } else if s == "boolean"@ {
        ConfigType::Boolean
    } else if s == "channel"@ {
        ConfigType::Channel
    } else if s == "role"@ {
        ConfigType::Role
    } else if s == "category"@ {
        ConfigType::Category
    } else if lists && s == "list"@ {
        ConfigType::List
    } else {
        ConfigType::String
    }
}

/// The type named by an optional type name; none means a string.
pub open spec fn type_of(s: Option<Seq<char>>, lists: bool) -> ConfigType {
    match s {
        Some(t) => kindd(t, lists),
        None => ConfigType::String,
    }
}

/// Law: each type name gives its own type, whether or not lists are
/// allowed: `number`, `boolean`, `channel`, `role` and `category` give the
/// number, boolean, channel, role and category types; `list` gives a list
/// where lists are allowed and a string inside a list's items; no name, or
/// `string`, gives a string.
pub proof fn law_type_names(lists: bool)
    ensures
        type_of(Some("number"@), lists) == ConfigType::Number,
        type_of(Some("boolean"@), lists) == ConfigType::Boolean,
        type_of(Some("channel"@), lists) == ConfigType::Channel,
        type_of(Some("role"@), lists) == ConfigType::Role,
        type_of(Some("category"@), lists) == ConfigType::Category,
        type_of(Some("list"@), true) == ConfigType::List,
        type_of(Some("list"@), false) == ConfigType::String,
        type_of(Some("string"@), lists) == ConfigType::String,
        type_of(None, lists) == ConfigType::String,
{
    reveal_strlit("number");
    reveal_strlit("boolean");
    reveal_strlit("channel");
    reveal_strlit("role");
    reveal_strlit("category");
    reveal_strlit("list");
    reveal_strlit("string");
    assert("number"@.len() == 6 && "boolean"@.len() == 7 && "channel"@.len() == 7);
    assert("role"@.len() == 4 && "category"@.len() == 8 && "list"@.len() == 4);
    assert("string"@.len() == 6);
    assert("number"@[0] == 'n' && "string"@[0] == 's');
    assert("boolean"@[0] == 'b' && "channel"@[0] == 'c');
    assert("role"@[0] == 'r' && "list"@[0] == 'l');
}

/// The sub-field a description stands for: the key defaults to empty and
/// the name to the key.
pub open spec fn sub_field_spec(r: RawSubFieldView) -> ItemSchemaView {
    let key = match r.key {
        Some(k) => k,
        None => Seq::empty(),
    };
    ItemSchemaView {
        key,
        name: match r.name {
            Some(n) => n,
            None => key,
        },
        field_type: type_of(r.kind, false),
        enum_options: Seq::empty(),
    }
}

/// The stored items of the list setting `key` of `plugin`: the slots below
/// the stored count whose text decodes, in slot order.
pub open spec fn stored_items(store: Map<Seq<char>, Seq<char>>, plugin: Seq<char>, key: Seq<char>) -> Seq<
    Map<Seq<char>, Seq<char>>,
> {
    let n = count_of(lookup(store, list_count_key_spec(plugin, key)));
    decoded_items(Seq::new(n, |i: int| lookup(store, list_item_key_spec(plugin, key, i as nat))))
}

/// The field a description stands for, given the store as it is when the
/// field is reached, and the default written to the store, if any: a list
/// field takes its items from the store; another field takes its stored
/// value, or its default, which is then stored.
pub open spec fn field_spec(plugin: Seq<char>, r: RawFieldView, store: Map<Seq<char>, Seq<char>>) -> (
    FieldView,
    Seq<(Seq<char>, Seq<char>)>,
) {
    let t = type_of(r.kind, true);
    let is_list = t == ConfigType::List;
    let stored = lookup(store, config_key_spec(plugin, r.key));
    let value = if is_list {
        Seq::empty()
    } else {
        match stored {
            Some(v) => v,
            None => r.default_text,
        }
    };
    let writes = if !is_list && stored is None {
        seq![(config_key_spec(plugin, r.key), r.default_text)]
    } else {
        Seq::empty()
    };
    (
        FieldView {
            key: r.key,
            name: match r.name {
                Some(n) => n,
                None => r.key,
            },
            description: match r.description {
                Some(d) => d,
                None => Seq::empty(),
            },
            field_type: t,
            default_value: value,
            item_schema: if is_list {
                r.item_schema.map_values(|s: RawSubFieldView| sub_field_spec(s))
            } else {
                Seq::empty()
            },
            list_items: if is_list {
                stored_items(store, plugin, r.key)
            } else {
                Seq::empty()
            },
            enum_options: Seq::empty(),
        },
        writes,
    )
}

/// The fields the descriptions stand for, in order, and all the writes
/// made; each field sees the writes made for the fields before it.
pub open spec fn fields_spec(plugin: Seq<char>, raws: Seq<RawFieldView>, store: Map<Seq<char>, Seq<char>>) -> (
    Seq<FieldView>,
    Seq<(Seq<char>, Seq<char>)>,
)
    decreases raws.len(),
{
    if raws.len() == 0 {
        (Seq::empty(), Seq::empty())
    } else {
        let (fs, ws) = fields_spec(plugin, raws.drop_last(), store);
        let (f, w) = field_spec(plugin, raws.last(), apply_writes(store, ws));
        (fs.push(f), ws + w)
    }
}

/// Writing `ws` then `w` is writing `ws + w`.
pub proof fn lemma_apply_writes_concat(
    store: Map<Seq<char>, Seq<char>>,
    ws: Seq<(Seq<char>, Seq<char>)>,
    w: Seq<(Seq<char>, Seq<char>)>,
)
    ensures
        apply_writes(apply_writes(store, ws), w) == apply_writes(store, ws + w),
    decreases w.len(),
{
    if w.len() > 0 {
        lemma_apply_writes_concat(store, ws, w.drop_last());
        assert((ws + w).drop_last() =~= ws + w.drop_last());
        assert((ws + w).last() == w.last());
    } else {
        assert(ws + w =~= ws);
    }
}

fn type_from(s: &Option<String>, lists: bool) -> (t: ConfigType)
    ensures
        t == type_of(s.deep_view(), lists),
{
    match s {
        None => ConfigType::String,
        Some(t) => {
            let t = t.as_str();
            if same_text(t, "number") {
                ConfigType::Number
            } else if same_text(t, "boolean") {
                ConfigType::Boolean
            } else if same_text(t, "channel") {
                ConfigType::Channel
            } else if same_text(t, "role") {
                ConfigType::Role
            } else if same_text(t, "category") {
                ConfigType::Category
            } else if lists && same_text(t, "list") {
                ConfigType::List
            } else {
                ConfigType::String
            }
        },
    }
}

fn sub_field(r: &RawSubField) -> (s: ConfigItemSchema)
    ensures
        s@ == sub_field_spec(r@),
{
    let key = match &r.key {
        Some(k) => k.clone(),
        None => String::new(),
    };
    let name = match &r.name {
        Some(n) => n.clone(),
        None => key.clone(),
    };
    let s = ConfigItemSchema {
        key,
        name,
        field_type: type_from(&r.kind, false),
        enum_options: Vec::new(),
    };
    assert(s@.enum_options =~= Seq::<Seq<char>>::empty());
    s
}

/// Reads the items of the list setting `key` of `plugin` from the store.
pub fn read_items(store: &StrMap, plugin: &str, key: &str) -> (v: Vec<StrMap>)
    ensures
        v.deep_view() == stored_items(store@, plugin@, key@),
{
    let ck = list_count_key(plugin, key);
    let n = match store.get(ck.as_str()) {
        Some(c) => stored_count(Some(c.as_str())),
        None => stored_count(None),
    };
    let ghost slots = Seq::new(n as nat, |i: int| lookup(store@, list_item_key_spec(plugin@, key@, i as nat)));
    let mut raw: Vec<Option<String>> = Vec::new();
    let mut i: usize = 0;
    while i < n
        invariant
            i <= n,
            slots == Seq::new(n as nat, |i: int| lookup(store@, list_item_key_spec(plugin@, key@, i as nat))),
            raw.deep_view() == slots.subrange(0, i as int),
        decreases n - i,
    {
        let k = list_item_key(plugin, key, i);
        let slot = match store.get(k.as_str()) {
            Some(v) => Some(v.clone()),
            None => None,
        };
        assert(slot.deep_view() == slots[i as int]);
        crate::vecs::push_deep(&mut raw, slot);
        assert(raw.deep_view() =~= slots.subrange(0, i + 1));
        i = i + 1;
    }
    assert(slots.subrange(0, n as int) =~= slots);
    decode_items(&raw)
}

fn build_field(plugin: &str, r: &RawField, store: &mut StrMap, writes: &mut Vec<(String, String)>) -> (f: ConfigField)
    ensures
        f@ == field_spec(plugin@, r@, old(store)@).0,
        final(writes).deep_view() == old(writes).deep_view() + field_spec(plugin@, r@, old(store)@).1,
        final(store)@ == apply_writes(old(store)@, field_spec(plugin@, r@, old(store)@).1),
{
    let ghost spec = field_spec(plugin@, r@, store@);
    let t = type_from(&r.kind, true);
    let is_list = t == ConfigType::List;
    let name = match &r.name {
        Some(n) => n.clone(),
        None => r.key.clone(),
    };
    let description = match &r.description {
        Some(d) => d.clone(),
        None => String::new(),
    };
    let mut item_schema: Vec<ConfigItemSchema> = Vec::new();
    let mut list_items: Vec<StrMap> = Vec::new();
    let mut value = String::new();
    if is_list {
        let mut i: usize = 0;
        while i < r.item_schema.len()
            invariant
                i <= r.item_schema.len(),
                item_schema.deep_view() == r@.item_schema.subrange(0, i as int).map_values(
                    |s: RawSubFieldView| sub_field_spec(s),
                ),
            decreases r.item_schema.len() - i,
        {
            let s = sub_field(&r.item_schema[i]);
            assert(r@.item_schema[i as int] == r.item_schema@[i as int]@);
            crate::vecs::push_deep(&mut item_schema, s);
            assert(item_schema.deep_view() =~= r@.item_schema.subrange(0, i + 1).map_values(
                |s: RawSubFieldView| sub_field_spec(s),
            ));
            i = i + 1;
        }
        assert(r@.item_schema.subrange(0, i as int) =~= r@.item_schema);
        list_items = read_items(store, plugin, r.key.as_str());
        assert(store@ == apply_writes(store@, Seq::<(Seq<char>, Seq<char>)>::empty()));
        assert(writes.deep_view() =~= writes.deep_view() + Seq::<(Seq<char>, Seq<char>)>::empty());
    } else {
        let k = config_key(plugin, r.key.as_str());
        match store.get(k.as_str()) {
            Some(v) => {
                value = v.clone();
                assert(store@ == apply_writes(store@, Seq::<(Seq<char>, Seq<char>)>::empty()));
                assert(writes.deep_view() =~= writes.deep_view() + Seq::<(Seq<char>, Seq<char>)>::empty());
            },
            None => {
                let ghost w = seq![(k@, r.default_text@)];
                let ghost before = writes.deep_view();
                let ghost st0 = store@;
                store.insert(k.clone(), r.default_text.clone());
                crate::vecs::push_deep(writes, (k, r.default_text.clone()));
                value = r.default_text.clone();
                assert(writes.deep_view() =~= before + w);
                assert(w.drop_last() =~= Seq::<(Seq<char>, Seq<char>)>::empty());
                assert(apply_writes(st0, w.drop_last()) == st0);
                assert(apply_writes(st0, w) == st0.insert(k@, r.default_text@));
            },
        }
    }
    let f = ConfigField {
        key: r.key.clone(),
        name,
        description,
        field_type: t,
        default_value: value,
        item_schema,
        list_items,
        enum_options: Vec::new(),
    };
    assert(f@.enum_options =~= Seq::<Seq<char>>::empty());
    assert(f@.item_schema =~= spec.0.item_schema);
    assert(f@.list_items =~= spec.0.list_items);
    f
}

/// Builds the configuration schema of `plugin` from the fields it
/// describes, reading stored values from `store` and writing there the
/// defaults of fields that have no stored value yet; returns the schema
/// and those writes, in order.
pub fn build_schema(plugin: &str, raws: &Vec<RawField>, store: &mut StrMap) -> (r: (
    PluginSchema,
    Vec<(String, String)>,
))
    ensures
        (r.0@, r.1.deep_view()) == fields_spec(plugin@, raws.deep_view(), old(store)@),
        final(store)@ == apply_writes(old(store)@, r.1.deep_view()),
{
    let ghost store0 = store@;
    let ghost rv = raws.deep_view();
    let mut fields: Vec<ConfigField> = Vec::new();
    let mut writes: Vec<(String, String)> = Vec::new();
    let mut i: usize = 0;
    assert(store0 == apply_writes(store0, Seq::<(Seq<char>, Seq<char>)>::empty()));
    while i < raws.len()
        invariant
            i <= raws.len(),
            rv == raws.deep_view(),
            (fields.deep_view(), writes.deep_view()) == fields_spec(plugin@, rv.subrange(0, i as int), store0),
            store@ == apply_writes(store0, writes.deep_view()),
        decreases raws.len() - i,
    {
        let ghost ws = writes.deep_view();
        let ghost st = store@;
        assert(rv[i as int] == raws@[i as int]@);
        let f = build_field(plugin, &raws[i], store, &mut writes);
        proof {
            lemma_apply_writes_concat(store0, ws, field_spec(plugin@, rv[i as int], st).1);
            assert(rv.subrange(0, i + 1).drop_last() =~= rv.subrange(0, i as int));
        }
        crate::vecs::push_deep(&mut fields, f);
        i = i + 1;
    }
    assert(rv.subrange(0, i as int) =~= rv);
    (PluginSchema { fields }, writes)
}

/// The log line for a registered schema.
pub fn registered_message(plugin: &str) -> (r: String)
    ensures
        r@ == "Registered config schema for plugin: "@ + plugin@,
{
    concat("Registered config schema for plugin: ", plugin)
}

/// Law: after registration every non-list field's value is in the store
/// under the field's key, so what the dashboard shows is what a restart
/// will read back.
pub proof fn law_registration_persists(
    plugin: Seq<char>,
    raws: Seq<RawFieldView>,
    store: Map<Seq<char>, Seq<char>>,
    i: int,
)
    requires
        0 <= i < raws.len(),
        fields_spec(plugin, raws, store).0[i].field_type != ConfigType::List,
    ensures
        lookup(apply_writes(store, fields_spec(plugin, raws, store).1), config_key_spec(plugin, raws[i].key))
            == Some(fields_spec(plugin, raws, store).0[i].default_value),
    decreases raws.len(),
{
    let n = raws.len();
    let prev = raws.drop_last();
    let (fs, ws) = fields_spec(plugin, prev, store);
    let mid = apply_writes(store, ws);
    let (f, w) = field_spec(plugin, raws.last(), mid);
    lemma_fields_len(plugin, prev, store);
    assert(fields_spec(plugin, raws, store).0 == fs.push(f));
    assert(fields_spec(plugin, raws, store).1 == ws + w);
    lemma_apply_writes_concat(store, ws, w);
    let k = config_key_spec(plugin, raws[i].key);
    if w.len() == 1 {
        assert(w.drop_last() =~= Seq::<(Seq<char>, Seq<char>)>::empty());
        assert(apply_writes(mid, w.drop_last()) == mid);
        assert(apply_writes(mid, w) == mid.insert(w[0].0, w[0].1));
    } else {
        assert(w =~= Seq::<(Seq<char>, Seq<char>)>::empty());
        assert(apply_writes(mid, w) == mid);
    }
    if i < n - 1 {
        assert(prev[i] == raws[i]);
        assert(fs.push(f)[i] == fs[i]);
        law_registration_persists(plugin, prev, store, i);
        if w.len() == 1 {
            assert(lookup(mid, w[0].0) is None);
            assert(w[0].0 != k);
        }
    }
}

proof fn lemma_fields_len(plugin: Seq<char>, raws: Seq<RawFieldView>, store: Map<Seq<char>, Seq<char>>)
    ensures
        fields_spec(plugin, raws, store).0.len() == raws.len(),
    decreases raws.len(),
{
    if raws.len() > 0 {
        lemma_fields_len(plugin, raws.drop_last(), store);
    }
}

/// The items a list setting holds are the stored texts of its slots, read
/// in order, that decode.
pub proof fn lemma_stored_items_are_read_list(store: Map<Seq<char>, Seq<char>>, plugin: Seq<char>, key: Seq<char>)
    ensures
        stored_items(store, plugin, key) == decoded_items(
            read_list(store, plugin, key).map_values(|t: Seq<char>| Some(t)),
        ),
{
    let n = count_of(lookup(store, list_count_key_spec(plugin, key)));
    lemma_slots_upto(store, plugin, key, n);
}

proof fn lemma_slots_upto(store: Map<Seq<char>, Seq<char>>, plugin: Seq<char>, key: Seq<char>, n: nat)
    ensures
        decoded_items(Seq::new(n, |i: int| lookup(store, list_item_key_spec(plugin, key, i as nat))))
            == decoded_items(list_items_upto(store, plugin, key, n).map_values(|t: Seq<char>| Some(t))),
    decreases n,
{
    let slots = Seq::new(n, |i: int| lookup(store, list_item_key_spec(plugin, key, i as nat)));
    if n > 0 {
        lemma_slots_upto(store, plugin, key, (n - 1) as nat);
        let prev = Seq::new((n - 1) as nat, |i: int| lookup(store, list_item_key_spec(plugin, key, i as nat)));
        assert(slots.drop_last() =~= prev);
        let l = list_items_upto(store, plugin, key, (n - 1) as nat);
        match lookup(store, list_item_key_spec(plugin, key, (n - 1) as nat)) {
            Some(v) => {
                let m = l.push(v).map_values(|t: Seq<char>| Some(t));
                assert(m.drop_last() =~= l.map_values(|t: Seq<char>| Some(t)));
                assert(m.last() == Some(v));
            },
            None => {},
        }
    } else {
        assert(slots =~= Seq::<Option<Seq<char>>>::empty());
        assert(list_items_upto(store, plugin, key, 0).map_values(|t: Seq<char>| Some(t)) =~= Seq::<
            Option<Seq<char>>,
        >::empty());
    }
}

proof fn lemma_stored_key_kept(
    plugin: Seq<char>,
    raws: Seq<RawFieldView>,
    store: Map<Seq<char>, Seq<char>>,
    k: Seq<char>,
    v: Seq<char>,
)
    requires
        lookup(store, k) == Some(v),
    ensures
        lookup(apply_writes(store, fields_spec(plugin, raws, store).1), k) == Some(v),
    decreases raws.len(),
{
    if raws.len() > 0 {
        let (fs, ws) = fields_spec(plugin, raws.drop_last(), store);
        lemma_stored_key_kept(plugin, raws.drop_last(), store, k, v);
        let mid = apply_writes(store, ws);
        let (f, w) = field_spec(plugin, raws.last(), mid);
        lemma_apply_writes_concat(store, ws, w);
        if w.len() == 1 {
            assert(w.drop_last() =~= Seq::<(Seq<char>, Seq<char>)>::empty());
            assert(apply_writes(mid, w.drop_last()) == mid);
            assert(lookup(mid, w[0].0) is None);
        } else {
            assert(w =~= Seq::<(Seq<char>, Seq<char>)>::empty());
            assert(apply_writes(mid, w) == mid);
        }
    }
}

/// Law: a value saved for a setting is the value its field shows when the
/// plugin registers again, and the registration writes nothing over it.
pub proof fn law_saved_value_is_shown(
    plugin: Seq<char>,
    raws: Seq<RawFieldView>,
    store: Map<Seq<char>, Seq<char>>,
    i: int,
    value: Seq<char>,
)
    requires
        0 <= i < raws.len(),
        type_of(raws[i].kind, true) != ConfigType::List,
    ensures
        fields_spec(plugin, raws, store.insert(config_key_spec(plugin, raws[i].key), value)).0[i].default_value
            == value,
    decreases raws.len(),
{
    let st = store.insert(config_key_spec(plugin, raws[i].key), value);
    let k = config_key_spec(plugin, raws[i].key);
    let prev = raws.drop_last();
    let (fs, ws) = fields_spec(plugin, prev, st);
    let mid = apply_writes(st, ws);
    let (f, w) = field_spec(plugin, raws.last(), mid);
    lemma_fields_len(plugin, prev, st);
    assert(fields_spec(plugin, raws, st).0 == fs.push(f));
    if i == raws.len() - 1 {
        lemma_stored_key_kept(plugin, prev, st, k, value);
    } else {
        assert(prev[i] == raws[i]);
        law_saved_value_is_shown(plugin, prev, store, i, value);
        assert(fs.push(f)[i] == fs[i]);
    }
}

} // verus!
