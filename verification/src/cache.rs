//! The cache of a guild's channels, categories and roles that the dashboard
//! offers in its dropdowns: built from what Discord reports, in name order,
//! and the stable sort by a text key that puts it in that order.
use vstd::prelude::*;
use vstd::multiset::Multiset;
use crate::text::{
    decimal, decimal_string, lemma_str_less_asymmetric, lemma_str_less_transitive, str_less, str_less_exec,
};
use crate::types::{DiscordRole, DiscordState, RoleView};
use crate::vecs::{insert_deep, push_deep, remove_deep};

verus! {

broadcast use vstd::seq_lib::to_multiset_insert;

/// Where an entry keyed `k` goes in a sequence ordered by key so that it
/// comes after every entry whose key is not greater: before the first
/// entry whose key is greater than `k`.
pub open spec fn insert_pos<V>(s: Seq<(Seq<char>, V)>, k: Seq<char>) -> nat
    decreases s.len(),
{
    if s.len() == 0 {
        0
    } else if str_less(k, s[0].0) {
        0
    } else {
        1 + insert_pos(s.drop_first(), k)
    }
}

/// The entries of `s` stably sorted by key: entries are taken in order, and
/// each goes after all entries already placed whose key is not greater.
pub open spec fn sorted_by_key<V>(s: Seq<(Seq<char>, V)>) -> Seq<(Seq<char>, V)>
    decreases s.len(),
{
    if s.len() == 0 {
        s
    } else {
        let p = sorted_by_key(s.drop_last());
        p.insert(insert_pos(p, s.last().0) as int, s.last())
    }
}

/// The keys never decrease along `s`.
pub open spec fn keys_ordered<V>(s: Seq<(Seq<char>, V)>) -> bool {
    forall|i: int, j: int| 0 <= i < j < s.len() ==> !str_less(#[trigger] s[j].0, #[trigger] s[i].0)
}

proof fn lemma_insert_pos<V>(s: Seq<(Seq<char>, V)>, k: Seq<char>)
    ensures
        insert_pos(s, k) <= s.len(),
        forall|i: int| 0 <= i < insert_pos(s, k) ==> !str_less(k, #[trigger] s[i].0),
        insert_pos(s, k) < s.len() ==> str_less(k, s[insert_pos(s, k) as int].0),
    decreases s.len(),
{
    if s.len() > 0 && !str_less(k, s[0].0) {
        lemma_insert_pos(s.drop_first(), k);
        assert forall|i: int| 0 <= i < insert_pos(s, k) implies !str_less(k, #[trigger] s[i].0) by {
            if i > 0 {
                assert(s[i] == s.drop_first()[i - 1]);
            }
        }
    }
}

proof fn lemma_insert_pos_at<V>(s: Seq<(Seq<char>, V)>, k: Seq<char>, j: int)
    requires
        0 <= j <= s.len(),
        forall|i: int| 0 <= i < j ==> !str_less(k, #[trigger] s[i].0),
        j < s.len() ==> str_less(k, s[j].0),
    ensures
        insert_pos(s, k) == j,
    decreases s.len(),
{
    if s.len() > 0 && j > 0 {
        assert forall|i: int| 0 <= i < j - 1 implies !str_less(k, #[trigger] s.drop_first()[i].0) by {
            assert(s.drop_first()[i] == s[i + 1]);
        }
        lemma_insert_pos_at(s.drop_first(), k, j - 1);
    }
}

proof fn lemma_sorted_len<V>(s: Seq<(Seq<char>, V)>)
    ensures
        sorted_by_key(s).len() == s.len(),
    decreases s.len(),
{
    if s.len() > 0 {
        lemma_sorted_len(s.drop_last());
        lemma_insert_pos(sorted_by_key(s.drop_last()), s.last().0);
    }
}

/// Stably sorts entries by their text key.
pub fn sort_by_key<T: DeepView>(v: Vec<(String, T)>) -> (r: Vec<(String, T)>)
    ensures
        r.deep_view() == sorted_by_key(v.deep_view()),
{
    let ghost all = v.deep_view();
    let mut rest = v;
    let mut out: Vec<(String, T)> = Vec::new();
    let ghost mut taken: int = 0;
    assert(all.subrange(0, 0) =~= Seq::<(Seq<char>, T::V)>::empty());
    while rest.len() > 0
        invariant
            0 <= taken <= all.len(),
            rest.deep_view() == all.subrange(taken, all.len() as int),
            out.deep_view() == sorted_by_key(all.subrange(0, taken)),
        decreases rest.len(),
    {
        let x = remove_deep(&mut rest, 0);
        let ghost xv = x.deep_view();
        assert(xv == all[taken]);
        proof {
            lemma_sorted_len(all.subrange(0, taken));
        }
        let mut j: usize = 0;
        while j < out.len() && !str_less_exec(x.0.as_str(), out[j].0.as_str())
            invariant
                j <= out.len(),
                xv.0 == x.0@,
                forall|i: int| 0 <= i < j ==> !str_less(xv.0, #[trigger] out.deep_view()[i].0),
            decreases out.len() - j,
        {
            assert(out.deep_view()[j as int].0 == out@[j as int].0@);
            j = j + 1;
        }
        proof {
            if j < out.len() {
                assert(out.deep_view()[j as int].0 == out@[j as int].0@);
            }
            lemma_insert_pos_at(out.deep_view(), xv.0, j as int);
            assert(all.subrange(0, taken + 1).drop_last() =~= all.subrange(0, taken));
            assert(all.subrange(0, taken + 1).last() == xv);
        }
        insert_deep(&mut out, j, x);
        proof {
            taken = taken + 1;
            assert(rest.deep_view() =~= all.subrange(taken, all.len() as int));
        }
    }
    assert(all.subrange(0, taken) =~= all);
    out
}

/// Law: sorting puts the keys in order.
pub proof fn law_sorted_is_ordered<V>(s: Seq<(Seq<char>, V)>)
    ensures
        keys_ordered(sorted_by_key(s)),
    decreases s.len(),
{
    if s.len() > 0 {
        let p = sorted_by_key(s.drop_last());
        let k = s.last().0;
        let q = insert_pos(p, k) as int;
        law_sorted_is_ordered(s.drop_last());
        lemma_insert_pos(p, k);
        let r = p.insert(q, s.last());
        assert forall|i: int, j: int| 0 <= i < j < r.len() implies !str_less(#[trigger] r[j].0, #[trigger] r[i].0) by {
            if j < q {
                assert(r[i] == p[i] && r[j] == p[j]);
            } else if j == q {
                assert(r[i] == p[i]);
            } else if i == q {
                assert(r[j] == p[j - 1]);
                if str_less(p[j - 1].0, k) {
                    if j - 1 > q {
                        lemma_str_less_transitive(p[j - 1].0, k, p[q].0);
                    } else {
                        lemma_str_less_asymmetric(k, p[q].0);
                    }
                }
            } else if i < q {
                assert(r[i] == p[i] && r[j] == p[j - 1]);
            } else {
                assert(r[i] == p[i - 1] && r[j] == p[j - 1]);
            }
        }
    }
}

/// Law: sorting keeps exactly the entries it was given.
pub proof fn law_sorted_is_permutation<V>(s: Seq<(Seq<char>, V)>)
    ensures
        sorted_by_key(s).to_multiset() == s.to_multiset(),
    decreases s.len(),
{
    broadcast use vstd::seq_lib::group_to_multiset_ensures;

    if s.len() > 0 {
        law_sorted_is_permutation(s.drop_last());
        let p = sorted_by_key(s.drop_last());
        lemma_insert_pos(p, s.last().0);
        assert(s.drop_last().push(s.last()) =~= s);
    } else {
        assert(s.to_multiset() =~= Multiset::empty());
    }
}

/// The kinds of guild channel the cache tells apart.
#[derive(Debug, Clone, Copy, PartialEq, Eq, Structural)]
pub enum ChannelKind {
    Text,
    Category,
    Other,
}

/// A guild channel as Discord reports it.
#[derive(Debug)]
pub struct GuildChannel {
    pub id: u64,
    pub kind: ChannelKind,
    pub name: String,
}

/// A guild role as Discord reports it, with its colour as `0xRRGGBB`.
#[derive(Debug)]
pub struct GuildRole {
    pub id: u64,
    pub name: String,
    pub colour: u32,
}

impl View for GuildChannel {
    type V = (u64, ChannelKind, Seq<char>);

    open spec fn view(&self) -> (u64, ChannelKind, Seq<char>) {
        (self.id, self.kind, self.name@)
    }
}

impl DeepView for GuildChannel {
    type V = (u64, ChannelKind, Seq<char>);

    open spec fn deep_view(&self) -> (u64, ChannelKind, Seq<char>) {
        self@
    }
}

impl View for GuildRole {
    type V = (u64, Seq<char>, u32);

    open spec fn view(&self) -> (u64, Seq<char>, u32) {
        (self.id, self.name@, self.colour)
    }
}

impl DeepView for GuildRole {
    type V = (u64, Seq<char>, u32);

    open spec fn deep_view(&self) -> (u64, Seq<char>, u32) {
        self@
    }
}

/// The red, green and blue parts of a colour `0xRRGGBB`.
pub open spec fn color_parts(c: u32) -> (u8, u8, u8) {
    (((c / 65536) % 256) as u8, ((c / 256) % 256) as u8, (c % 256) as u8)
}

/// Splits a colour `0xRRGGBB` into red, green and blue.
pub fn color_channels(c: u32) -> (r: (u8, u8, u8))
    ensures
        r == color_parts(c),
{
    assert((c >> 16u32) & 255u32 == (c / 65536) % 256) by (bit_vector);
    assert((c >> 8u32) & 255u32 == (c / 256) % 256) by (bit_vector);
    assert(c & 255u32 == c % 256) by (bit_vector);
    let r = ((c >> 16u32) & 255u32) as u8;
    let g = ((c >> 8u32) & 255u32) as u8;
    let b = (c & 255u32) as u8;
    (r, g, b)
}

/// Which channels a list takes: `Some(k)` takes the channels of kind `k`,
/// `None` every channel that is not a category.
pub open spec fn takes(want: Option<ChannelKind>, k: ChannelKind) -> bool {
    match want {
        Some(w) => k == w,
        None => k != ChannelKind::Category,
    }
}

/// The channels that `want` takes, in order, as (name, (id, name)).
pub open spec fn keyed_channels(cs: Seq<(u64, ChannelKind, Seq<char>)>, want: Option<ChannelKind>) -> Seq<
    (Seq<char>, (Seq<char>, Seq<char>)),
>
    decreases cs.len(),
{
    if cs.len() == 0 {
        Seq::empty()
    } else {
        let prev = keyed_channels(cs.drop_last(), want);
        let c = cs.last();
        if takes(want, c.1) {
            prev.push((c.2, (decimal_string(c.0 as nat), c.2)))
        } else {
            prev
        }
    }
}

/// The roles, in order, as (name, role).
pub open spec fn keyed_roles(rs: Seq<(u64, Seq<char>, u32)>) -> Seq<(Seq<char>, RoleView)> {
    rs.map_values(
        |r: (u64, Seq<char>, u32)|
            (r.1, RoleView { id: decimal_string(r.0 as nat), name: r.1, color: color_parts(r.2) }),
    )
}

/// The entries of a keyed sequence without their keys.
pub open spec fn payloads<V>(s: Seq<(Seq<char>, V)>) -> Seq<V> {
    s.map_values(|e: (Seq<char>, V)| e.1)
}

fn keyed_channel_list(cs: &Vec<GuildChannel>, want: Option<ChannelKind>) -> (r: Vec<(String, (String, String))>)
    ensures
        r.deep_view() == keyed_channels(cs.deep_view(), want),
{
    let ghost all = cs.deep_view();
    let mut r: Vec<(String, (String, String))> = Vec::new();
    let mut i: usize = 0;
    while i < cs.len()
        invariant
            i <= cs.len(),
            all == cs.deep_view(),
            r.deep_view() == keyed_channels(all.subrange(0, i as int), want),
        decreases cs.len() - i,
    {
        let c = &cs[i];
        assert(all[i as int] == c@);
        assert(all.subrange(0, i + 1).drop_last() =~= all.subrange(0, i as int));
        let taken = match want {
            Some(w) => c.kind == w,
            None => c.kind != ChannelKind::Category,
        };
        if taken {
            push_deep(&mut r, (c.name.clone(), (decimal(c.id), c.name.clone())));
        }
        i = i + 1;
    }
    assert(all.subrange(0, i as int) =~= all);
    r
}

fn keyed_role_list(rs: &Vec<GuildRole>) -> (r: Vec<(String, DiscordRole)>)
    ensures
        r.deep_view() == keyed_roles(rs.deep_view()),
{
    let ghost all = rs.deep_view();
    let mut r: Vec<(String, DiscordRole)> = Vec::new();
    let mut i: usize = 0;
    while i < rs.len()
        invariant
            i <= rs.len(),
            all == rs.deep_view(),
            r.deep_view() == keyed_roles(all.subrange(0, i as int)),
        decreases rs.len() - i,
    {
        let x = &rs[i];
        assert(all[i as int] == x@);
        let role = DiscordRole { id: decimal(x.id), name: x.name.clone(), color: color_channels(x.colour) };
        push_deep(&mut r, (x.name.clone(), role));
        assert(r.deep_view() =~= keyed_roles(all.subrange(0, i + 1)));
        i = i + 1;
    }
    assert(all.subrange(0, i as int) =~= all);
    r
}

fn without_keys<T: DeepView>(v: Vec<(String, T)>) -> (r: Vec<T>)
    ensures
        r.deep_view() == payloads(v.deep_view()),
{
    let ghost all = v.deep_view();
    let mut rest = v;
    let mut r: Vec<T> = Vec::new();
    let ghost mut done: int = 0;
    while rest.len() > 0
        invariant
            0 <= done <= all.len(),
            rest.deep_view() == all.subrange(done, all.len() as int),
            r.deep_view() == payloads(all.subrange(0, done)),
        decreases rest.len(),
    {
        let e = remove_deep(&mut rest, 0);
        assert(e.deep_view() == all[done]);
        push_deep(&mut r, e.1);
        proof {
            done = done + 1;
            assert(rest.deep_view() =~= all.subrange(done, all.len() as int));
            assert(r.deep_view() =~= payloads(all.subrange(0, done)));
        }
    }
    assert(all.subrange(0, done) =~= all);
    r
}

/// The log line reporting what the cache holds.
pub fn cached_message(channels: usize, categories: usize, roles: usize) -> (r: String)
    ensures
        r@ == "Cached "@ + decimal_string(channels as nat) + " channels, "@ + decimal_string(categories as nat)
            + " categories, "@ + decimal_string(roles as nat) + " roles."@,
{
    let mut r = "Cached ".to_owned();
    crate::text::push_decimal(&mut r, channels as u64);
    r.append(" channels, ");
    crate::text::push_decimal(&mut r, categories as u64);
    r.append(" categories, ");
    crate::text::push_decimal(&mut r, roles as u64);
    r.append(" roles.");
    r
}

/// Fills the cache from a guild that became available: its text channels,
/// its categories and its roles, each sorted by name; the record of guild
/// owners is kept. Returns the log line that reports the counts.
pub fn cache_guild(state: &mut DiscordState, channels: &Vec<GuildChannel>, roles: &Vec<GuildRole>) -> (msg: String)
    ensures
        final(state)@.channels == payloads(sorted_by_key(keyed_channels(channels.deep_view(), Some(ChannelKind::Text)))),
        final(state)@.categories == payloads(sorted_by_key(keyed_channels(channels.deep_view(), Some(ChannelKind::Category)))),
        final(state)@.roles == payloads(sorted_by_key(keyed_roles(roles.deep_view()))),
        final(state)@.guild_owners == old(state)@.guild_owners,
        msg@ == "Cached "@ + decimal_string(final(state)@.channels.len()) + " channels, "@
            + decimal_string(final(state)@.categories.len()) + " categories, "@
            + decimal_string(final(state)@.roles.len()) + " roles."@,
{
    state.channels = without_keys(sort_by_key(keyed_channel_list(channels, Some(ChannelKind::Text))));
    state.categories = without_keys(sort_by_key(keyed_channel_list(channels, Some(ChannelKind::Category))));
    state.roles = without_keys(sort_by_key(keyed_role_list(roles)));
    cached_message(state.channels.len(), state.categories.len(), state.roles.len())
}

/// Replaces the cache with the channels, categories and roles of all
/// guilds, guild by guild in the order given: every channel that is not a
/// category counts as a channel. Nothing is sorted; the record of guild
/// owners is kept. Returns the log line that reports the counts.
pub fn refresh_cache(state: &mut DiscordState, guilds: &Vec<(Vec<GuildChannel>, Vec<GuildRole>)>) -> (msg: String)
    ensures
        final(state)@.channels == guilds.deep_view().fold_left(
            Seq::empty(),
            |acc: Seq<(Seq<char>, Seq<char>)>, g: (Seq<(u64, ChannelKind, Seq<char>)>, Seq<(u64, Seq<char>, u32)>)|
                acc + payloads(keyed_channels(g.0, None)),
        ),
        final(state)@.categories == guilds.deep_view().fold_left(
            Seq::empty(),
            |acc: Seq<(Seq<char>, Seq<char>)>, g: (Seq<(u64, ChannelKind, Seq<char>)>, Seq<(u64, Seq<char>, u32)>)|
                acc + payloads(keyed_channels(g.0, Some(ChannelKind::Category))),
        ),
        final(state)@.roles == guilds.deep_view().fold_left(
            Seq::empty(),
            |acc: Seq<RoleView>, g: (Seq<(u64, ChannelKind, Seq<char>)>, Seq<(u64, Seq<char>, u32)>)|
                acc + payloads(keyed_roles(g.1)),
        ),
        final(state)@.guild_owners == old(state)@.guild_owners,
        msg@ == "Cached "@ + decimal_string(final(state)@.channels.len()) + " channels, "@
            + decimal_string(final(state)@.categories.len()) + " categories, "@
            + decimal_string(final(state)@.roles.len()) + " roles."@,
{
    let ghost gs = guilds.deep_view();
    let mut chans: Vec<(String, String)> = Vec::new();
    let mut cats: Vec<(String, String)> = Vec::new();
    let mut rls: Vec<DiscordRole> = Vec::new();
    let mut i: usize = 0;
    while i < guilds.len()
        invariant
            i <= guilds.len(),
            gs == guilds.deep_view(),
            chans.deep_view() == gs.subrange(0, i as int).fold_left(
                Seq::empty(),
                |acc: Seq<(Seq<char>, Seq<char>)>, g: (Seq<(u64, ChannelKind, Seq<char>)>, Seq<(u64, Seq<char>, u32)>)|
                    acc + payloads(keyed_channels(g.0, None)),
            ),
            cats.deep_view() == gs.subrange(0, i as int).fold_left(
                Seq::empty(),
                |acc: Seq<(Seq<char>, Seq<char>)>, g: (Seq<(u64, ChannelKind, Seq<char>)>, Seq<(u64, Seq<char>, u32)>)|
                    acc + payloads(keyed_channels(g.0, Some(ChannelKind::Category))),
            ),
            rls.deep_view() == gs.subrange(0, i as int).fold_left(
                Seq::empty(),
                |acc: Seq<RoleView>, g: (Seq<(u64, ChannelKind, Seq<char>)>, Seq<(u64, Seq<char>, u32)>)|
                    acc + payloads(keyed_roles(g.1)),
            ),
        decreases guilds.len() - i,
    {
        let g = &guilds[i];
        assert(gs[i as int] == (g.0.deep_view(), g.1.deep_view()));
        let c = without_keys(keyed_channel_list(&g.0, None));
        let k = without_keys(keyed_channel_list(&g.0, Some(ChannelKind::Category)));
        let r = without_keys(keyed_role_list(&g.1));
        append_all(&mut chans, c);
        append_all(&mut cats, k);
        append_all(&mut rls, r);
        proof {
            let next = gs.subrange(0, i + 1);
            assert(next.drop_last() =~= gs.subrange(0, i as int));
            next.lemma_fold_left_split(Seq::<(Seq<char>, Seq<char>)>::empty(),
                |acc: Seq<(Seq<char>, Seq<char>)>, g: (Seq<(u64, ChannelKind, Seq<char>)>, Seq<(u64, Seq<char>, u32)>)|
                    acc + payloads(keyed_channels(g.0, None)), i as int);
        }
        i = i + 1;
    }
    assert(gs.subrange(0, i as int) =~= gs);
    state.channels = chans;
    state.categories = cats;
    state.roles = rls;
    cached_message(state.channels.len(), state.categories.len(), state.roles.len())
}

/// Moves the entries of `w` to the end of `v`.
fn append_all<T: DeepView>(v: &mut Vec<T>, w: Vec<T>)
    ensures
        final(v).deep_view() == old(v).deep_view() + w.deep_view(),
{
    let ghost start = v.deep_view();
    let ghost all = w.deep_view();
    let mut rest = w;
    let ghost mut done: int = 0;
    while rest.len() > 0
        invariant
            0 <= done <= all.len(),
            rest.deep_view() == all.subrange(done, all.len() as int),
            v.deep_view() == start + all.subrange(0, done),
        decreases rest.len(),
    {
        let e = remove_deep(&mut rest, 0);
        assert(e.deep_view() == all[done]);
        push_deep(v, e);
        proof {
            done = done + 1;
            assert(rest.deep_view() =~= all.subrange(done, all.len() as int));
            assert(v.deep_view() =~= start + all.subrange(0, done));
        }
    }
    assert(all.subrange(0, done) =~= all);
}

} // verus!
