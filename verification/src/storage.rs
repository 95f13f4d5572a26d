//! Where configuration values live in the key-value store, and the writes
//! that saving a value or appending, replacing or deleting a list item
//! makes there.
use vstd::prelude::*;
use vstd::string::StringExecFns;
use crate::strmap::{keys_distinct, lemma_pairs_to_map_lookup, pairs_to_map};
use crate::text::{
    decimal, decimal_string, lemma_decimal_string_digits,
    law_parse_reads_decimal, parse_unsigned, parse_usize, push_decimal,
};

verus! {

/// `config:<plugin>:<key>`, the key of a plugin's scalar setting.
pub open spec fn config_key_spec(plugin: Seq<char>, key: Seq<char>) -> Seq<char> {
    "config:"@ + plugin + ":"@ + key
}

/// The key holding the number of items of a list setting.
pub open spec fn list_count_key_spec(plugin: Seq<char>, key: Seq<char>) -> Seq<char> {
    config_key_spec(plugin, key) + ":_count"@
}

/// The key holding item `i` of a list setting.
pub open spec fn list_item_key_spec(plugin: Seq<char>, key: Seq<char>, i: nat) -> Seq<char> {
    config_key_spec(plugin, key) + ":"@ + decimal_string(i)
}

/// The key of a plugin's scalar setting.
pub fn config_key(plugin: &str, key: &str) -> (r: String)
    ensures
        r@ == config_key_spec(plugin@, key@),
{
    let mut r = "config:".to_owned();
    r.append(plugin);
    r.append(":");
    r.append(key);
    r
}

/// The key of the item count of a list setting.
pub fn list_count_key(plugin: &str, key: &str) -> (r: String)
    ensures
        r@ == list_count_key_spec(plugin@, key@),
{
    let mut r = config_key(plugin, key);
    r.append(":_count");
    r
}

/// The key of item `i` of a list setting.
pub fn list_item_key(plugin: &str, key: &str, i: usize) -> (r: String)
    ensures
        r@ == list_item_key_spec(plugin@, key@, i as nat),
{
    let mut r = config_key(plugin, key);
    r.append(":");
    push_decimal(&mut r, i as u64);
    r
}

/// The count a stored count text stands for: its number, or 0 when there
/// is none or it is not a number.
pub open spec fn count_of(stored: Option<Seq<char>>) -> nat {
    match stored {
        Some(s) => match parse_unsigned(s, usize::MAX as nat) {
            Some(n) => n,
            None => 0,
        },
        None => 0,
    }
}

/// The count a stored count text stands for.
pub fn stored_count(stored: Option<&str>) -> (n: usize)
    ensures
        n as nat == count_of(match stored {
            Some(s) => Some(s@),
            None => None::<Seq<char>>,
        }),
{
    match stored {
        Some(s) => match parse_usize(s) {
            Some(n) => n,
            None => 0,
        },
        None => 0,
    }
}

/// The store after performing `writes` in order.
pub open spec fn apply_writes(
    store: Map<Seq<char>, Seq<char>>,
    writes: Seq<(Seq<char>, Seq<char>)>,
) -> Map<Seq<char>, Seq<char>>
    decreases writes.len(),
{
    if writes.len() == 0 {
        store
    } else {
        apply_writes(store, writes.drop_last()).insert(writes.last().0, writes.last().1)
    }
}

/// The stored text of a key, if any.
pub open spec fn lookup(store: Map<Seq<char>, Seq<char>>, k: Seq<char>) -> Option<Seq<char>> {
    if store.contains_key(k) {
        Some(store[k])
    } else {
        None
    }
}

/// The stored items among slots `0..n` of a list setting, in order; empty
/// slots are skipped.
pub open spec fn list_items_upto(
    store: Map<Seq<char>, Seq<char>>,
    plugin: Seq<char>,
    key: Seq<char>,
    n: nat,
) -> Seq<Seq<char>>
    decreases n,
{
    if n == 0 {
        Seq::empty()
    } else {
        let prev = list_items_upto(store, plugin, key, (n - 1) as nat);
        match lookup(store, list_item_key_spec(plugin, key, (n - 1) as nat)) {
            Some(v) => prev.push(v),
            None => prev,
        }
    }
}

/// The items of a list setting as a reader of the store sees them: the
/// stored count, then the stored items below it.
pub open spec fn read_list(store: Map<Seq<char>, Seq<char>>, plugin: Seq<char>, key: Seq<char>) -> Seq<
    Seq<char>,
> {
    list_items_upto(
        store,
        plugin,
        key,
        count_of(lookup(store, list_count_key_spec(plugin, key))),
    )
}

/// The writes that appending the stored text `item` makes, given the count
/// that is stored now.
pub open spec fn append_writes_spec(
    plugin: Seq<char>,
    key: Seq<char>,
    stored: Option<Seq<char>>,
    item: Seq<char>,
) -> Seq<(Seq<char>, Seq<char>)> {
    let n = count_of(stored);
    seq![
        (list_item_key_spec(plugin, key, n), item),
        (list_count_key_spec(plugin, key), decimal_string(n + 1)),
    ]
}

/// The writes that appending a list item makes: the item under the next
/// slot, then the new count.
pub fn append_writes(plugin: &str, key: &str, stored: Option<&str>, item: String) -> (w: Vec<
    (String, String),
>)
    requires
        count_of(match stored {
            Some(s) => Some(s@),
            None => None::<Seq<char>>,
        }) < usize::MAX,
    ensures
        w.deep_view() == append_writes_spec(
            plugin@,
            key@,
            match stored {
                Some(s) => Some(s@),
                None => None::<Seq<char>>,
            },
            item@,
        ),
{
    let n = stored_count(stored);
    let mut w: Vec<(String, String)> = Vec::new();
    let k1 = list_item_key(plugin, key, n);
    let ghost p1 = (k1@, item@);
    w.push((k1, item));
    let k2 = list_count_key(plugin, key);
    let v2 = decimal((n + 1) as u64);
    let ghost p2 = (k2@, v2@);
    w.push((k2, v2));
    assert(w.deep_view() =~= seq![p1, p2]) by {
        assert(w.deep_view()[0] == w@[0].deep_view());
        assert(w.deep_view()[1] == w@[1].deep_view());
    }
    w
}

/// The items other than slot `index` that are stored, in slot order, given
/// what each slot below the count holds.
pub open spec fn survivors(stored: Seq<Option<Seq<char>>>, index: nat) -> Seq<Seq<char>>
    decreases stored.len(),
{
    if stored.len() == 0 {
        Seq::empty()
    } else {
        let prev = survivors(stored.drop_last(), index);
        if stored.len() - 1 != index && stored.last() is Some {
            prev.push(stored.last()->0)
        } else {
            prev
        }
    }
}

/// The writes that deleting slot `index` makes: the surviving items packed
/// into slots `0..m`, then the new count `m`.
pub open spec fn delete_writes_spec(
    plugin: Seq<char>,
    key: Seq<char>,
    stored: Seq<Option<Seq<char>>>,
    index: nat,
) -> Seq<(Seq<char>, Seq<char>)> {
    let s = survivors(stored, index);
    Seq::new(s.len(), |j: int| (list_item_key_spec(plugin, key, j as nat), s[j])).push(
        (list_count_key_spec(plugin, key), decimal_string(s.len())),
    )
}

/// The writes that deleting list slot `index` makes, given what each of the
/// `stored.len()` slots below the stored count holds; `None` (no write)
/// when `index` is not below the count.
pub fn delete_writes(plugin: &str, key: &str, stored: &Vec<Option<String>>, index: usize) -> (w: Option<
    Vec<(String, String)>,
>)
    ensures
        match w {
            Some(v) => index < stored.len() && v.deep_view() == delete_writes_spec(
                plugin@,
                key@,
                stored.deep_view(),
                index as nat,
            ),
            None => index >= stored.len(),
        },
{
    if index >= stored.len() {
        return None;
    }
    let ghost sv = stored.deep_view();
    let mut kept: Vec<String> = Vec::new();
    let mut i: usize = 0;
    while i < stored.len()
        invariant
            i <= stored.len(),
            sv == stored.deep_view(),
            kept.deep_view() == survivors(sv.subrange(0, i as int), index as nat),
        decreases stored.len() - i,
    {
        proof {
            assert(sv.subrange(0, i + 1).drop_last() =~= sv.subrange(0, i as int));
            assert(sv[i as int] == stored@[i as int].deep_view());
        }
        if i != index {
            match &stored[i] {
                Some(s) => {
                    crate::vecs::push_deep(&mut kept, s.clone());
                },
                None => {},
            }
        }
        i = i + 1;
    }
    assert(sv.subrange(0, i as int) =~= sv);
    let ghost s = kept.deep_view();
    let mut w: Vec<(String, String)> = Vec::new();
    let mut j: usize = 0;
    while j < kept.len()
        invariant
            j <= kept.len(),
            s == kept.deep_view(),
            kept@.len() == s.len(),
            w.deep_view() == Seq::new(j as nat, |t: int| (list_item_key_spec(plugin@, key@, t as nat), s[t])),
        decreases kept.len() - j,
    {
        let k = list_item_key(plugin, key, j);
        let x = kept[j].clone();
        assert(s[j as int] == kept@[j as int]@);
        let ghost ov = w.deep_view();
        crate::vecs::push_deep(&mut w, (k, x));
        j = j + 1;
        assert(w.deep_view() =~= Seq::new(j as nat, |t: int| (list_item_key_spec(plugin@, key@, t as nat), s[t])));
    }
    let ck = list_count_key(plugin, key);
    let cv = decimal(kept.len() as u64);
    crate::vecs::push_deep(&mut w, (ck, cv));
    assert(w.deep_view() =~= delete_writes_spec(plugin@, key@, sv, index as nat));
    Some(w)
}

} // verus!
verus! {

proof fn lemma_apply_is_union(store: Map<Seq<char>, Seq<char>>, ws: Seq<(Seq<char>, Seq<char>)>)
    ensures
        apply_writes(store, ws) == store.union_prefer_right(pairs_to_map(ws)),
    decreases ws.len(),
{
    if ws.len() == 0 {
        assert(store.union_prefer_right(pairs_to_map(ws)) =~= store);
    } else {
        lemma_apply_is_union(store, ws.drop_last());
        assert(apply_writes(store, ws) =~= store.union_prefer_right(pairs_to_map(ws)));
    }
}

proof fn lemma_prefix_cancel(p: Seq<char>, a: Seq<char>, b: Seq<char>)
    requires
        p + a == p + b,
    ensures
        a == b,
{
    assert(a =~= (p + a).skip(p.len() as int));
    assert(b =~= (p + b).skip(p.len() as int));
}

/// The common beginning of a list setting's keys.
pub open spec fn list_key_base(plugin: Seq<char>, key: Seq<char>) -> Seq<char> {
    config_key_spec(plugin, key) + ":"@
}

proof fn lemma_key_shapes(plugin: Seq<char>, key: Seq<char>, i: nat)
    ensures
        list_item_key_spec(plugin, key, i) == list_key_base(plugin, key) + decimal_string(i),
        list_count_key_spec(plugin, key) == list_key_base(plugin, key) + "_count"@,
{
    reveal_strlit(":_count");
    reveal_strlit(":");
    reveal_strlit("_count");
    assert(":_count"@ =~= ":"@ + "_count"@);
    assert(list_count_key_spec(plugin, key) =~= list_key_base(plugin, key) + "_count"@);
    assert(list_item_key_spec(plugin, key, i) =~= list_key_base(plugin, key) + decimal_string(i));
}

/// Law: different slots of a list setting live under different keys.
pub proof fn law_item_keys_distinct(plugin: Seq<char>, key: Seq<char>, i: nat, j: nat)
    requires
        i != j,
    ensures
        list_item_key_spec(plugin, key, i) != list_item_key_spec(plugin, key, j),
{
    lemma_key_shapes(plugin, key, i);
    lemma_key_shapes(plugin, key, j);
    if list_item_key_spec(plugin, key, i) == list_item_key_spec(plugin, key, j) {
        lemma_prefix_cancel(list_key_base(plugin, key), decimal_string(i), decimal_string(j));
        lemma_decimal_string_digits(i);
        lemma_decimal_string_digits(j);
    }
}

/// Law: no slot of a list setting shares its key with the item count.
pub proof fn law_count_key_apart(plugin: Seq<char>, key: Seq<char>, i: nat)
    ensures
        list_item_key_spec(plugin, key, i) != list_count_key_spec(plugin, key),
{
    lemma_key_shapes(plugin, key, i);
    if list_item_key_spec(plugin, key, i) == list_count_key_spec(plugin, key) {
        lemma_prefix_cancel(list_key_base(plugin, key), decimal_string(i), "_count"@);
        lemma_decimal_string_digits(i);
        reveal_strlit("_count");
        assert(decimal_string(i)[0] == '_');
    }
}

proof fn lemma_items_agree(
    s1: Map<Seq<char>, Seq<char>>,
    s2: Map<Seq<char>, Seq<char>>,
    plugin: Seq<char>,
    key: Seq<char>,
    n: nat,
)
    requires
        forall|j: nat| j < n ==> lookup(s1, #[trigger] list_item_key_spec(plugin, key, j)) == lookup(
            s2,
            list_item_key_spec(plugin, key, j),
        ),
    ensures
        list_items_upto(s1, plugin, key, n) == list_items_upto(s2, plugin, key, n),
    decreases n,
{
    if n > 0 {
        lemma_items_agree(s1, s2, plugin, key, (n - 1) as nat);
        assert(lookup(s1, list_item_key_spec(plugin, key, (n - 1) as nat)) == lookup(
            s2,
            list_item_key_spec(plugin, key, (n - 1) as nat),
        ));
    }
}

proof fn lemma_items_present(
    st: Map<Seq<char>, Seq<char>>,
    plugin: Seq<char>,
    key: Seq<char>,
    s: Seq<Seq<char>>,
    n: nat,
)
    requires
        n <= s.len(),
        forall|j: nat| j < s.len() ==> lookup(st, #[trigger] list_item_key_spec(plugin, key, j)) == Some(
            s[j as int],
        ),
    ensures
        list_items_upto(st, plugin, key, n) == s.take(n as int),
    decreases n,
{
    if n > 0 {
        lemma_items_present(st, plugin, key, s, (n - 1) as nat);
        assert(lookup(st, list_item_key_spec(plugin, key, (n - 1) as nat)) == Some(s[n - 1]));
        assert(s.take(n as int) =~= s.take(n - 1).push(s[n - 1]));
    }
}

/// Law: after the writes of appending an item, a reader of the store sees
/// the list it saw before with the item at its end.
pub proof fn law_append_then_read(
    store: Map<Seq<char>, Seq<char>>,
    plugin: Seq<char>,
    key: Seq<char>,
    item: Seq<char>,
)
    requires
        count_of(lookup(store, list_count_key_spec(plugin, key))) < usize::MAX,
    ensures
        read_list(
            apply_writes(
                store,
                append_writes_spec(plugin, key, lookup(store, list_count_key_spec(plugin, key)), item),
            ),
            plugin,
            key,
        ) == read_list(store, plugin, key).push(item),
{
    let ck = list_count_key_spec(plugin, key);
    let n = count_of(lookup(store, ck));
    let ws = append_writes_spec(plugin, key, lookup(store, ck), item);
    let ik = list_item_key_spec(plugin, key, n);
    let after = apply_writes(store, ws);
    assert(ws.drop_last().drop_last() =~= Seq::<(Seq<char>, Seq<char>)>::empty());
    assert(apply_writes(store, ws.drop_last().drop_last()) == store);
    assert(ws.drop_last().last() == (ik, item));
    assert(apply_writes(store, ws.drop_last()) == store.insert(ik, item));
    assert(after == store.insert(ik, item).insert(ck, decimal_string(n + 1)));
    law_count_key_apart(plugin, key, n);
    law_parse_reads_decimal(n + 1, usize::MAX as nat);
    assert(count_of(lookup(after, ck)) == n + 1);
    assert forall|j: nat| j < n implies lookup(after, #[trigger] list_item_key_spec(plugin, key, j))
        == lookup(store, list_item_key_spec(plugin, key, j)) by {
        law_item_keys_distinct(plugin, key, j, n);
        law_count_key_apart(plugin, key, j);
    }
    lemma_items_agree(after, store, plugin, key, n);
    assert(lookup(after, ik) == Some(item));
}

/// Law: after the writes of deleting a slot, a reader of the store sees
/// exactly the surviving items, in their order.
pub proof fn law_delete_then_read(
    store: Map<Seq<char>, Seq<char>>,
    plugin: Seq<char>,
    key: Seq<char>,
    stored: Seq<Option<Seq<char>>>,
    index: nat,
)
    requires
        stored.len() <= usize::MAX,
    ensures
        read_list(apply_writes(store, delete_writes_spec(plugin, key, stored, index)), plugin, key)
            == survivors(stored, index),
{
    let s = survivors(stored, index);
    lemma_survivors_len(stored, index);
    let ws = delete_writes_spec(plugin, key, stored, index);
    let ck = list_count_key_spec(plugin, key);
    let after = apply_writes(store, ws);
    assert forall|a: int, b: int| 0 <= a < b < ws.len() implies ws[a].0 != ws[b].0 by {
        if b == ws.len() - 1 {
            law_count_key_apart(plugin, key, a as nat);
        } else {
            law_item_keys_distinct(plugin, key, a as nat, b as nat);
        }
    }
    assert(keys_distinct(ws));
    lemma_apply_is_union(store, ws);
    lemma_pairs_to_map_lookup(ws, ck);
    assert(ws[ws.len() - 1].0 == ck);
    assert(lookup(after, ck) == Some(decimal_string(s.len())));
    law_parse_reads_decimal(s.len(), usize::MAX as nat);
    assert forall|j: nat| j < s.len() implies lookup(after, #[trigger] list_item_key_spec(plugin, key, j))
        == Some(s[j as int]) by {
        lemma_pairs_to_map_lookup(ws, list_item_key_spec(plugin, key, j));
        assert(ws[j as int] == (list_item_key_spec(plugin, key, j), s[j as int]));
        assert(ws[j as int].1 == s[j as int]);
        assert(0 <= j < ws.len() && ws[j as int].0 == list_item_key_spec(plugin, key, j));
        assert(pairs_to_map(ws)[list_item_key_spec(plugin, key, j)] == s[j as int]);
    }
    lemma_items_present(after, plugin, key, s, s.len());
    assert(s.take(s.len() as int) =~= s);
}

proof fn lemma_survivors_len(stored: Seq<Option<Seq<char>>>, index: nat)
    ensures
        survivors(stored, index).len() <= stored.len(),
    decreases stored.len(),
{
    if stored.len() > 0 {
        lemma_survivors_len(stored.drop_last(), index);
    }
}

/// Law: when every slot holds an item, deleting slot `index` keeps all the
/// other items in order.
pub proof fn law_delete_keeps_others(stored: Seq<Option<Seq<char>>>, index: nat)
    requires
        forall|i: int| 0 <= i < stored.len() ==> stored[i] is Some,
        index < stored.len(),
    ensures
        survivors(stored, index) == stored.map_values(|o: Option<Seq<char>>| o->0).remove(
            index as int,
        ),
    decreases stored.len(),
{
    let vals = stored.map_values(|o: Option<Seq<char>>| o->0);
    let p = stored.drop_last();
    if index == stored.len() - 1 {
        lemma_survivors_all(p, index);
        assert(vals.remove(index as int) =~= p.map_values(|o: Option<Seq<char>>| o->0));
    } else {
        law_delete_keeps_others(p, index);
        assert(vals.remove(index as int) =~= p.map_values(|o: Option<Seq<char>>| o->0).remove(
            index as int,
        ).push(stored.last()->0));
    }
}

proof fn lemma_survivors_all(stored: Seq<Option<Seq<char>>>, index: nat)
    requires
        forall|i: int| 0 <= i < stored.len() ==> stored[i] is Some,
        index >= stored.len(),
    ensures
        survivors(stored, index) == stored.map_values(|o: Option<Seq<char>>| o->0),
    decreases stored.len(),
{
    if stored.len() > 0 {
        lemma_survivors_all(stored.drop_last(), index);
        assert(stored.map_values(|o: Option<Seq<char>>| o->0) =~= stored.drop_last().map_values(
            |o: Option<Seq<char>>| o->0,
        ).push(stored.last()->0));
    } else {
        assert(stored.map_values(|o: Option<Seq<char>>| o->0) =~= Seq::<Seq<char>>::empty());
    }
}

} // verus!
