//! The registry of plugin configuration schemas, kept in name order, the
//! storage keys under which configuration values live, and the edits that
//! saving a value or changing a list item makes.
use vstd::prelude::*;
use vstd::string::StringExecFns;
use crate::strmap::{keys_distinct, lemma_pairs_to_map_insert_at, lemma_pairs_to_map_update, pairs_to_map, StrMap};
use crate::text::{
    lemma_str_less_asymmetric, lemma_str_less_total,
    lemma_str_less_transitive, str_less, str_less_exec,
};
use crate::types::{ConfigField, ConfigType, FieldView, ItemSchemaView, PluginSchema};
use crate::vecs::{insert_deep, push_deep, remove_deep, replace_deep};

verus! {

/// The plugins' names are in strictly increasing order.
pub open spec fn names_sorted(s: Seq<(Seq<char>, Seq<FieldView>)>) -> bool {
    forall|i: int, j: int| 0 <= i < j < s.len() ==> str_less(s[i].0, s[j].0)
}

/// The position of the entry named `k`.
pub open spec fn entry_index<V>(s: Seq<(Seq<char>, V)>, k: Seq<char>) -> Option<nat>
    decreases s.len(),
{
    if s.len() == 0 {
        None
    } else if s.last().0 == k {
        Some((s.len() - 1) as nat)
    } else {
        entry_index(s.drop_last(), k)
    }
}

proof fn lemma_entry_index<V>(s: Seq<(Seq<char>, V)>, k: Seq<char>)
    requires
        keys_distinct(s),
    ensures
        match entry_index(s, k) {
            Some(i) => i < s.len() && s[i as int].0 == k,
            None => forall|j: int| 0 <= j < s.len() ==> s[j].0 != k,
        },
    decreases s.len(),
{
    if s.len() > 0 {
        let p = s.drop_last();
        assert(keys_distinct(p));
        lemma_entry_index(p, k);
        if s.last().0 != k {
            assert(entry_index(s, k) == entry_index(p, k));
            match entry_index(p, k) {
                Some(i) => {
                    assert(i < p.len());
                    assert(s[i as int] == p[i as int]);
                },
                None => {
                    assert forall|j: int| 0 <= j < s.len() implies s[j].0 != k by {
                        if j < p.len() {
                            assert(s[j] == p[j]);
                        }
                    }
                },
            }
        }
    }
}

proof fn lemma_entry_index_at<V>(s: Seq<(Seq<char>, V)>, k: Seq<char>, i: int)
    requires
        keys_distinct(s),
        0 <= i < s.len(),
        s[i].0 == k,
    ensures
        entry_index(s, k) == Some(i as nat),
{
    lemma_entry_index(s, k);
}

/// The first field with the given key; with `list_only`, the first such
/// field of type list.
pub open spec fn field_index(fields: Seq<FieldView>, key: Seq<char>, list_only: bool) -> Option<nat>
    decreases fields.len(),
{
    if fields.len() == 0 {
        None
    } else if fields[0].key == key && (!list_only || fields[0].field_type == ConfigType::List) {
        Some(0)
    } else {
        match field_index(fields.drop_first(), key, list_only) {
            Some(i) => Some(i + 1),
            None => None,
        }
    }
}

proof fn lemma_field_index_at(fields: Seq<FieldView>, key: Seq<char>, list_only: bool, i: int)
    requires
        0 <= i <= fields.len(),
        forall|j: int|
            0 <= j < i ==> !(fields[j].key == key && (!list_only || fields[j].field_type
                == ConfigType::List)),
        i == fields.len() || (fields[i].key == key && (!list_only || fields[i].field_type
            == ConfigType::List)),
    ensures
        field_index(fields, key, list_only) == (if i == fields.len() {
            None
        } else {
            Some(i as nat)
        }),
    decreases fields.len(),
{
    if fields.len() > 0 && i > 0 {
        assert forall|j: int| 0 <= j < i - 1 implies !(fields.drop_first()[j].key == key && (
        !list_only || fields.drop_first()[j].field_type == ConfigType::List)) by {
            assert(fields.drop_first()[j] == fields[j + 1]);
        }
        lemma_field_index_at(fields.drop_first(), key, list_only, i - 1);
    }
}

/// A field with its value replaced.
pub open spec fn with_value(f: FieldView, value: Seq<char>) -> FieldView {
    FieldView { default_value: value, ..f }
}

/// A field with its list items replaced.
pub open spec fn with_items(f: FieldView, items: Seq<Map<Seq<char>, Seq<char>>>) -> FieldView {
    FieldView { list_items: items, ..f }
}

/// The fields after saving `value` under the first field keyed `key`.
pub open spec fn save_value_fields(fields: Seq<FieldView>, key: Seq<char>, value: Seq<char>) -> Seq<FieldView> {
    match field_index(fields, key, false) {
        Some(i) => fields.update(i as int, with_value(fields[i as int], value)),
        None => fields,
    }
}

/// The fields after appending `item` to the first list field keyed `key`.
pub open spec fn append_item_fields(
    fields: Seq<FieldView>,
    key: Seq<char>,
    item: Map<Seq<char>, Seq<char>>,
) -> Seq<FieldView> {
    match field_index(fields, key, true) {
        Some(i) => fields.update(
            i as int,
            with_items(fields[i as int], fields[i as int].list_items.push(item)),
        ),
        None => fields,
    }
}

/// The fields after replacing item `index` of the first list field keyed
/// `key`, when there is such an item.
pub open spec fn update_item_fields(
    fields: Seq<FieldView>,
    key: Seq<char>,
    index: nat,
    item: Map<Seq<char>, Seq<char>>,
) -> Seq<FieldView> {
    match field_index(fields, key, true) {
        Some(i) => if index < fields[i as int].list_items.len() {
            fields.update(
                i as int,
                with_items(fields[i as int], fields[i as int].list_items.update(index as int, item)),
            )
        } else {
            fields
        },
        None => fields,
    }
}

/// The fields after removing item `index` of the first list field keyed
/// `key`, when there is such an item.
pub open spec fn remove_item_fields(fields: Seq<FieldView>, key: Seq<char>, index: nat) -> Seq<
    FieldView,
> {
    match field_index(fields, key, true) {
        Some(i) => if index < fields[i as int].list_items.len() {
            fields.update(
                i as int,
                with_items(fields[i as int], fields[i as int].list_items.remove(index as int)),
            )
        } else {
            fields
        },
        None => fields,
    }
}

/// The registry with the fields of plugin `name` transformed by `f`, if
/// that plugin is registered.
pub open spec fn edit_plugin(
    s: Seq<(Seq<char>, Seq<FieldView>)>,
    name: Seq<char>,
    f: spec_fn(Seq<FieldView>) -> Seq<FieldView>,
) -> Seq<(Seq<char>, Seq<FieldView>)> {
    match entry_index(s, name) {
        Some(i) => s.update(i as int, (s[i as int].0, f(s[i as int].1))),
        None => s,
    }
}

/// The configuration schemas of the plugins, by plugin name, in name order.
#[derive(Debug)]
pub struct PluginRegistry {
    entries: Vec<(String, PluginSchema)>,
}

impl View for PluginRegistry {
    type V = Seq<(Seq<char>, Seq<FieldView>)>;

    closed spec fn view(&self) -> Seq<(Seq<char>, Seq<FieldView>)> {
        self.entries.deep_view()
    }
}

proof fn lemma_sorted_distinct(s: Seq<(Seq<char>, Seq<FieldView>)>)
    requires
        names_sorted(s),
    ensures
        keys_distinct(s),
{
    assert forall|i: int, j: int| 0 <= i < j < s.len() implies s[i].0 != s[j].0 by {
        lemma_str_less_asymmetric(s[i].0, s[j].0);
    }
}

/// A placeholder field, swapped in while a field is being edited.
fn blank_field() -> (f: ConfigField)
    ensures
        f@ == (FieldView {
            key: Seq::empty(),
            name: Seq::empty(),
            description: Seq::empty(),
            field_type: ConfigType::String,
            default_value: Seq::empty(),
            item_schema: Seq::empty(),
            list_items: Seq::empty(),
            enum_options: Seq::empty(),
        }),
{
    let f = ConfigField {
        key: String::new(),
        name: String::new(),
        description: String::new(),
        field_type: ConfigType::String,
        default_value: String::new(),
        item_schema: Vec::new(),
        list_items: Vec::new(),
        enum_options: Vec::new(),
    };
    assert(f@.item_schema =~= Seq::<ItemSchemaView>::empty());
    assert(f@.list_items =~= Seq::<Map<Seq<char>, Seq<char>>>::empty());
    assert(f@.enum_options =~= Seq::<Seq<char>>::empty());
    f
}

impl PluginRegistry {
    #[verifier::type_invariant]
    closed spec fn inv(&self) -> bool {
        names_sorted(self.entries.deep_view())
    }

    /// The registry as a map from plugin name to fields.
    pub open spec fn as_map(&self) -> Map<Seq<char>, Seq<FieldView>> {
        pairs_to_map(self@)
    }

    /// An empty registry.
    pub fn new() -> (r: PluginRegistry)
        ensures
            r@.len() == 0,
    {
        let r = PluginRegistry { entries: Vec::new() };
        assert(r.entries.deep_view() =~= Seq::<(Seq<char>, Seq<FieldView>)>::empty());
        r
    }

    /// The registry's entries are in strictly increasing name order.
    pub fn check_sorted(&self)
        ensures
            names_sorted(self@),
            keys_distinct(self@),
    {
        proof {
            use_type_invariant(self);
            lemma_sorted_distinct(self@);
        }
    }

    /// The number of plugins.
    pub fn len(&self) -> (n: usize)
        ensures
            n == self@.len(),
    {
        self.entries.len()
    }

    /// The name of the `i`-th plugin in name order.
    pub fn name_at(&self, i: usize) -> (r: &String)
        requires
            i < self@.len(),
        ensures
            r@ == self@[i as int].0,
    {
        assert(self@[i as int].0 == self.entries@[i as int].0@);
        &self.entries[i].0
    }

    /// The schema of the `i`-th plugin in name order.
    pub fn schema_at(&self, i: usize) -> (r: &PluginSchema)
        requires
            i < self@.len(),
        ensures
            r@ == self@[i as int].1,
    {
        assert(self@[i as int].1 == self.entries@[i as int].1@);
        &self.entries[i].1
    }

    /// The field `fi` of the `pi`-th plugin, if both exist.
    pub fn field_at(&self, pi: usize, fi: usize) -> (r: Option<&ConfigField>)
        ensures
            match r {
                Some(f) => pi < self@.len() && fi < self@[pi as int].1.len() && f@ == self@[pi as int].1[fi as int],
                None => !(pi < self@.len() && fi < self@[pi as int].1.len()),
            },
    {
        if pi < self.entries.len() {
            let s = self.schema_at(pi);
            if fi < s.fields.len() {
                assert(s@[fi as int] == s.fields@[fi as int]@);
                return Some(&s.fields[fi]);
            }
        }
        None
    }

    /// The position of the plugin called `name`.
    pub fn find(&self, name: &str) -> (r: Option<usize>)
        ensures
            match r {
                Some(i) => entry_index(self@, name@) == Some(i as nat) && i < self@.len()
                    && self@[i as int].0 == name@,
                None => entry_index(self@, name@) is None,
            },
    {
        self.check_sorted();
        let target = name.to_owned();
        let mut i: usize = 0;
        while i < self.entries.len()
            invariant
                i <= self.entries.len(),
                target@ == name@,
                keys_distinct(self@),
                forall|j: int| 0 <= j < i ==> self@[j].0 != name@,
            decreases self.entries.len() - i,
        {
            assert(self@[i as int].0 == self.entries@[i as int].0@);
            if self.entries[i].0 == target {
                proof {
                    lemma_entry_index_at(self@, name@, i as int);
                }
                return Some(i);
            }
            i = i + 1;
        }
        proof {
            lemma_entry_index(self@, name@);
            if let Some(k) = entry_index(self@, name@) {
                assert(self@[k as int].0 == name@);
            }
        }
        None
    }

    /// Registers `schema` as the configuration of plugin `name`, replacing an
    /// earlier registration.
    pub fn register(&mut self, name: String, schema: PluginSchema)
        ensures
            final(self).as_map() == old(self).as_map().insert(name@, schema@),
            names_sorted(final(self)@),
    {
        proof {
            use_type_invariant(&*self);
            lemma_sorted_distinct(self@);
        }
        let ghost s = self@;
        let ghost x = (name@, schema@);
        let mut j: usize = 0;
        while j < self.entries.len() && str_less_exec(self.entries[j].0.as_str(), name.as_str())
            invariant
                j <= self.entries.len(),
                s == self@,
                names_sorted(s),
                forall|i: int| 0 <= i < j ==> str_less(#[trigger] s[i].0, name@),
            decreases self.entries.len() - j,
        {
            assert(s[j as int].0 == self.entries@[j as int].0@);
            j = j + 1;
        }
        let mut entries: Vec<(String, PluginSchema)> = Vec::new();
        std::mem::swap(&mut entries, &mut self.entries);
        assert(entries.deep_view() == s);
        if j < entries.len() && entries[j].0 == name {
            proof {
                lemma_pairs_to_map_update(s, j as int, schema@);
            }
            let old_entry = entries.remove(j);
            entries.insert(j, (old_entry.0, schema));
            assert(entries.deep_view() =~= s.update(j as int, (s[j as int].0, x.1)));
        } else {
            proof {
                if j < s.len() {
                    assert(s[j as int].0 == entries@[j as int].0@);
                    lemma_str_less_total(s[j as int].0, name@);
                    assert(str_less(name@, s[j as int].0));
                }
                assert forall|i: int| 0 <= i < s.len() implies s[i].0 != name@ by {
                    if i < j {
                        lemma_str_less_asymmetric(s[i].0, name@);
                    } else {
                        if i > j {
                            lemma_str_less_transitive(name@, s[j as int].0, s[i].0);
                        }
                        lemma_str_less_asymmetric(name@, s[i].0);
                    }
                }
                lemma_pairs_to_map_insert_at(s, j as int, x);
                let t = s.insert(j as int, x);
                assert forall|a: int, b: int| 0 <= a < b < t.len() implies str_less(t[a].0, t[b].0) by {
                    if b < j {
                    } else if b == j {
                    } else if a < j {
                        assert(t[b] == s[b - 1]);
                        lemma_str_less_transitive(s[a].0, name@, s[j as int].0);
                        if b - 1 > j {
                            lemma_str_less_transitive(s[a].0, s[j as int].0, s[b - 1].0);
                        }
                    } else if a == j {
                        assert(t[b] == s[b - 1]);
                        if b - 1 > j {
                            lemma_str_less_transitive(name@, s[j as int].0, s[b - 1].0);
                        }
                    } else {
                        assert(t[a] == s[a - 1]);
                        assert(t[b] == s[b - 1]);
                    }
                }
            }
            entries.insert(j, (name, schema));
            assert(entries.deep_view() =~= s.insert(j as int, x));
        }
        self.entries = entries;
    }

    /// Replaces field `fi` of plugin `pi` by `f` and returns the field that
    /// was there.
    fn replace_field(&mut self, pi: usize, fi: usize, f: ConfigField) -> (old_field: ConfigField)
        requires
            pi < old(self)@.len(),
            fi < old(self)@[pi as int].1.len(),
        ensures
            old_field@ == old(self)@[pi as int].1[fi as int],
            final(self)@ == old(self)@.update(
                pi as int,
                (old(self)@[pi as int].0, old(self)@[pi as int].1.update(fi as int, f@)),
            ),
    {
        proof {
            use_type_invariant(&*self);
        }
        let ghost s = self@;
        let ghost fv = f@;
        let mut entries: Vec<(String, PluginSchema)> = Vec::new();
        std::mem::swap(&mut entries, &mut self.entries);
        assert(entries@.len() == s.len());
        let (name, mut schema) = remove_deep(&mut entries, pi);
        let old_field = replace_deep(&mut schema.fields, fi, f);
        let ghost nv = name@;
        insert_deep(&mut entries, pi, (name, schema));
        assert(entries.deep_view() =~= s.update(pi as int, (s[pi as int].0, s[pi as int].1.update(fi as int, fv))));
        self.entries = entries;
        old_field
    }

    /// Applies an edited field: the registry after putting `f` in place of
    /// field `fi` of plugin `pi` in `base`.
    proof fn lemma_twice(base: Seq<(Seq<char>, Seq<FieldView>)>, pi: int, fi: int, x: FieldView, y: FieldView)
        requires
            0 <= pi < base.len(),
            0 <= fi < base[pi].1.len(),
        ensures
            ({
                let mid = base.update(pi, (base[pi].0, base[pi].1.update(fi, x)));
                mid.update(pi, (mid[pi].0, mid[pi].1.update(fi, y))) == base.update(
                    pi,
                    (base[pi].0, base[pi].1.update(fi, y)),
                )
            }),
    {
        let mid = base.update(pi, (base[pi].0, base[pi].1.update(fi, x)));
        assert(mid[pi].1.update(fi, y) =~= base[pi].1.update(fi, y));
        assert(mid.update(pi, (mid[pi].0, mid[pi].1.update(fi, y))) =~= base.update(
            pi,
            (base[pi].0, base[pi].1.update(fi, y)),
        ));
    }

    /// The position of the first field of plugin `pi` keyed `key` (of type
    /// list, with `list_only`).
    fn find_field(&self, pi: usize, key: &str, list_only: bool) -> (r: Option<usize>)
        requires
            pi < self@.len(),
        ensures
            match r {
                Some(i) => field_index(self@[pi as int].1, key@, list_only) == Some(i as nat) && i
                    < self@[pi as int].1.len(),
                None => field_index(self@[pi as int].1, key@, list_only) is None,
            },
    {
        let schema = self.schema_at(pi);
        let fields = &schema.fields;
        let ghost fs = self@[pi as int].1;
        assert(fs == fields.deep_view());
        let k = key.to_owned();
        let mut i: usize = 0;
        while i < fields.len()
            invariant
                i <= fields.len(),
                pi < self@.len(),
                fs == self@[pi as int].1,
                fs == fields.deep_view(),
                k@ == key@,
                forall|j: int|
                    0 <= j < i ==> !(fs[j].key == key@ && (!list_only || fs[j].field_type
                        == ConfigType::List)),
            decreases fields.len() - i,
        {
            assert(fs[i as int] == fields@[i as int]@);
            if fields[i].key == k && (!list_only || fields[i].field_type == ConfigType::List) {
                proof {
                    lemma_field_index_at(fs, key@, list_only, i as int);
                }
                return Some(i);
            }
            i = i + 1;
        }
        proof {
            lemma_field_index_at(fs, key@, list_only, i as int);
        }
        None
    }

    /// Sets the value of field `fi` of plugin `pi`.
    pub fn set_value_at(&mut self, pi: usize, fi: usize, value: String)
        requires
            pi < old(self)@.len(),
            fi < old(self)@[pi as int].1.len(),
        ensures
            final(self)@ == old(self)@.update(
                pi as int,
                (
                    old(self)@[pi as int].0,
                    old(self)@[pi as int].1.update(
                        fi as int,
                        with_value(old(self)@[pi as int].1[fi as int], value@),
                    ),
                ),
            ),
    {
        let ghost vv = value@;
        let mut f = self.replace_field(pi, fi, blank_field());
        let ghost before = f@;
        let ghost hole = self@[pi as int].1[fi as int];
        f.default_value = value;
        assert(f@ =~= with_value(before, vv));
        self.replace_field(pi, fi, f);
        proof {
            Self::lemma_twice(old(self)@, pi as int, fi as int, hole, with_value(before, vv));
        }
    }

    /// Saves `value` as the value of the first field keyed `key` of plugin
    /// `plugin`, if there is one.
    pub fn save_value(&mut self, plugin: &str, key: &str, value: String)
        ensures
            final(self)@ == edit_plugin(
                old(self)@,
                plugin@,
                |fs: Seq<FieldView>| save_value_fields(fs, key@, value@),
            ),
    {
        match self.find(plugin) {
            None => {},
            Some(pi) => match self.find_field(pi, key, false) {
                None => {
                    assert(self@ =~= self@.update(pi as int, (self@[pi as int].0, self@[pi as int].1)));
                },
                Some(fi) => {
                    self.set_value_at(pi, fi, value);
                },
            },
        }
    }

    /// Appends `item` to the first list field keyed `key` of plugin
    /// `plugin`, if there is one.
    pub fn append_item(&mut self, plugin: &str, key: &str, item: StrMap)
        ensures
            final(self)@ == edit_plugin(
                old(self)@,
                plugin@,
                |fs: Seq<FieldView>| append_item_fields(fs, key@, item@),
            ),
    {
        match self.find(plugin) {
            None => {},
            Some(pi) => match self.find_field(pi, key, true) {
                None => {
                    assert(self@ =~= self@.update(pi as int, (self@[pi as int].0, self@[pi as int].1)));
                },
                Some(fi) => {
                    let ghost iv = item@;
                    let ghost orig = self@;
                    let mut f = self.replace_field(pi, fi, blank_field());
                    let ghost before = f@;
                    let ghost hole = self@[pi as int].1[fi as int];
                    push_deep(&mut f.list_items, item);
                    assert(f@ =~= with_items(before, before.list_items.push(iv)));
                    let ghost after = f@;
                    self.replace_field(pi, fi, f);
                    proof {
                        Self::lemma_twice(orig, pi as int, fi as int, hole, after);
                    }
                },
            },
        }
    }

    /// Replaces item `index` of the first list field keyed `key` of plugin
    /// `plugin`, if there is such an item.
    pub fn update_item(&mut self, plugin: &str, key: &str, index: usize, item: StrMap)
        ensures
            final(self)@ == edit_plugin(
                old(self)@,
                plugin@,
                |fs: Seq<FieldView>| update_item_fields(fs, key@, index as nat, item@),
            ),
    {
        match self.find(plugin) {
            None => {},
            Some(pi) => match self.find_field(pi, key, true) {
                None => {
                    assert(self@ =~= self@.update(pi as int, (self@[pi as int].0, self@[pi as int].1)));
                },
                Some(fi) => {
                    let ghost iv = item@;
                    let ghost orig = self@;
                    let mut f = self.replace_field(pi, fi, blank_field());
                    let ghost before = f@;
                    let ghost hole = self@[pi as int].1[fi as int];
                    if index < f.list_items.len() {
                        replace_deep(&mut f.list_items, index, item);
                        assert(f@ =~= with_items(before, before.list_items.update(index as int, iv)));
                    } else {
                        assert(f@ =~= before);
                    }
                    let ghost after = f@;
                    self.replace_field(pi, fi, f);
                    proof {
                        Self::lemma_twice(orig, pi as int, fi as int, hole, after);
                        if !(index < before.list_items.len()) {
                            assert(orig[pi as int].1.update(fi as int, before) =~= orig[pi as int].1);
                            assert(self@ =~= orig);
                        }
                    }
                },
            },
        }
    }

    /// Removes item `index` of the first list field keyed `key` of plugin
    /// `plugin`, if there is such an item.
    pub fn remove_item(&mut self, plugin: &str, key: &str, index: usize)
        ensures
            final(self)@ == edit_plugin(
                old(self)@,
                plugin@,
                |fs: Seq<FieldView>| remove_item_fields(fs, key@, index as nat),
            ),
    {
        match self.find(plugin) {
            None => {},
            Some(pi) => match self.find_field(pi, key, true) {
                None => {
                    assert(self@ =~= self@.update(pi as int, (self@[pi as int].0, self@[pi as int].1)));
                },
                Some(fi) => {
                    let ghost orig = self@;
                    let mut f = self.replace_field(pi, fi, blank_field());
                    let ghost before = f@;
                    let ghost hole = self@[pi as int].1[fi as int];
                    if index < f.list_items.len() {
                        remove_deep(&mut f.list_items, index);
                        assert(f@ =~= with_items(before, before.list_items.remove(index as int)));
                    } else {
                        assert(f@ =~= before);
                    }
                    let ghost after = f@;
                    self.replace_field(pi, fi, f);
                    proof {
                        Self::lemma_twice(orig, pi as int, fi as int, hole, after);
                        if !(index < before.list_items.len()) {
                            assert(orig[pi as int].1.update(fi as int, before) =~= orig[pi as int].1);
                            assert(self@ =~= orig);
                        }
                    }
                },
            },
        }
    }
}

} // verus!
