//! Decisions behind the bot functions plugins call: ids read from text,
//! interval periods, presence activities, private channels and member
//! timeouts, and which files are plugins and in what order they load.
use vstd::prelude::*;
use crate::cache::{payloads, sort_by_key, sorted_by_key};
use crate::text::{
    ascii_lower, chars_of, decimal_string, ends_with, ends_with_sep, lower_char_exec, parse_u64,
    parse_unsigned, push_decimal, same_text,
};
use crate::vecs::push_deep;

verus! {

/// The id a text stands for: its number, or 0 where it is not one.
pub open spec fn id_of(s: Seq<char>) -> u64 {
    match parse_unsigned(s, u64::MAX as nat) {
        Some(n) => n as u64,
        None => 0,
    }
}

/// Reads an id from text; 0 where the text is not a number.
pub fn id_or_zero(s: &str) -> (r: u64)
    ensures
        r == id_of(s@),
{
    match parse_u64(s) {
        Some(n) => n,
        None => 0,
    }
}

/// The id a text stands for, where it is a number.
pub open spec fn some_id(s: Seq<char>) -> Option<u64> {
    match parse_unsigned(s, u64::MAX as nat) {
        Some(n) => Some(n as u64),
        None => None,
    }
}

/// The milliseconds in one unit of an interval: seconds, minutes, hours
/// or days by short or long name; anything else counts milliseconds.
pub open spec fn unit_millis(unit: Option<Seq<char>>) -> nat {
    match unit {
        Some(u) => if u == "s"@ || u == "seconds"@ {
            1000
        } else if u == "m"@ || u == "minutes"@ {
            60000
        } else if u == "h"@ || u == "hours"@ {
            3600000
        } else if u == "d"@ || u == "days"@ {
            86400000
        } else {
            1
        },
        None => 1,
    }
}

/// The milliseconds in one unit of an interval.
pub fn unit_factor(unit: Option<&str>) -> (f: u64)
    ensures
        f as nat == unit_millis(match unit {
            Some(u) => Some(u@),
            None => None,
        }),
{
    match unit {
        Some(u) => if same_text(u, "s") || same_text(u, "seconds") {
            1000
        } else if same_text(u, "m") || same_text(u, "minutes") {
            60000
        } else if same_text(u, "h") || same_text(u, "hours") {
            3600000
        } else if same_text(u, "d") || same_text(u, "days") {
            86400000
        } else {
            1
        },
        None => 1,
    }
}

/// The period, in milliseconds, of an interval of `amount` units: never
/// below one millisecond.
pub fn interval_period(amount: u64, unit: Option<&str>) -> (ms: u64)
    requires
        amount * unit_millis(match unit {
            Some(u) => Some(u@),
            None => None,
        }) <= u64::MAX,
    ensures
        ms == (if amount * unit_millis(match unit {
            Some(u) => Some(u@),
            None => None,
        }) >= 1 {
            amount * unit_millis(match unit {
                Some(u) => Some(u@),
                None => None,
            })
        } else {
            1
        }),
{
    let ms = amount * unit_factor(unit);
    if ms >= 1 {
        ms
    } else {
        1
    }
}

/// Law: an interval of `amount` units lasts as long under a unit's short
/// name as under its long one; a minute is sixty seconds, an hour sixty
/// minutes and a day twenty-four hours, and a second is a thousand of the
/// milliseconds that an amount without a unit counts.
pub proof fn law_interval_units(amount: nat)
    ensures
        amount * unit_millis(None) == amount,
        amount * unit_millis(Some("ms"@)) == amount,
        amount * unit_millis(Some("s"@)) == amount * unit_millis(Some("seconds"@)),
        amount * unit_millis(Some("s"@)) == 1000 * amount,
        amount * unit_millis(Some("m"@)) == amount * unit_millis(Some("minutes"@)),
        amount * unit_millis(Some("m"@)) == 60 * (amount * unit_millis(Some("s"@))),
        amount * unit_millis(Some("h"@)) == amount * unit_millis(Some("hours"@)),
        amount * unit_millis(Some("h"@)) == 60 * (amount * unit_millis(Some("m"@))),
        amount * unit_millis(Some("d"@)) == amount * unit_millis(Some("days"@)),
        amount * unit_millis(Some("d"@)) == 24 * (amount * unit_millis(Some("h"@))),
{
    reveal_strlit("ms");
    reveal_strlit("s");
    reveal_strlit("seconds");
    reveal_strlit("m");
    reveal_strlit("minutes");
    reveal_strlit("h");
    reveal_strlit("hours");
    reveal_strlit("d");
    reveal_strlit("days");
    assert("s"@[0] == 's' && "m"@[0] == 'm' && "h"@[0] == 'h' && "d"@[0] == 'd');
    assert("ms"@.len() == 2 && "seconds"@.len() == 7 && "minutes"@.len() == 7);
    assert("seconds"@[1] == 'e' && "minutes"@[1] == 'i');
    assert("hours"@.len() == 5 && "days"@.len() == 4);
    assert(unit_millis(Some("ms"@)) == 1);
    assert(unit_millis(Some("s"@)) == 1000);
    assert(unit_millis(Some("seconds"@)) == 1000);
    assert(unit_millis(Some("m"@)) == 60000);
    assert(unit_millis(Some("minutes"@)) == 60000);
    assert(unit_millis(Some("h"@)) == 3600000);
    assert(unit_millis(Some("hours"@)) == 3600000);
    assert(unit_millis(Some("d"@)) == 86400000);
    assert(unit_millis(Some("days"@)) == 86400000);
}

/// The activities the bot's presence can show.
#[derive(Debug, Clone, Copy, PartialEq, Eq, Structural)]
pub enum ActivityKind {
    Playing,
    Listening,
    Watching,
    Competing,
    Custom,
}

/// The activity a lower-case name stands for.
pub open spec fn activity_named(s: Seq<char>) -> Option<ActivityKind> {
    if s == "playing"@ {
        Some(ActivityKind::Playing)
    } else if s == "listening"@ {
        Some(ActivityKind::Listening)
    } else if s == "watching"@ {
        Some(ActivityKind::Watching)
    } else if s == "competing"@ {
        Some(ActivityKind::Competing)
    } else if s == "custom"@ {
        Some(ActivityKind::Custom)
    } else {
        None
    }
}

/// The activity a name stands for, ignoring case; none clears the presence.
/// (Folding ASCII letters gives the same answer as full Unicode lower-casing
/// here: no other character lower-cases into one of these names.)
pub fn activity_kind(s: &str) -> (r: Option<ActivityKind>)
    ensures
        r == activity_named(ascii_lower(s@)),
{
    let v = chars_of(s);
    let mut low = String::new();
    let mut i: usize = 0;
    while i < v.len()
        invariant
            i <= v.len(),
            v@ == s@,
            low@ == ascii_lower(s@).subrange(0, i as int),
        decreases v.len() - i,
    {
        crate::text::push_char(&mut low, lower_char_exec(v[i]));
        i = i + 1;
        assert(low@ =~= ascii_lower(s@).subrange(0, i as int));
    }
    assert(low@ =~= ascii_lower(s@));
    let l = low.as_str();
    if same_text(l, "playing") {
        Some(ActivityKind::Playing)
    } else if same_text(l, "listening") {
        Some(ActivityKind::Listening)
    } else if same_text(l, "watching") {
        Some(ActivityKind::Watching)
    } else if same_text(l, "competing") {
        Some(ActivityKind::Competing)
    } else if same_text(l, "custom") {
        Some(ActivityKind::Custom)
    } else {
        None
    }
}

/// A permission override of a new channel.
#[derive(Debug, Clone, Copy, PartialEq, Eq, Structural)]
pub enum Overwrite {
    /// The role every member has (its id is the guild's) may not view the channel.
    HideFromEveryone(u64),
    /// The member may view the channel and send messages there.
    AllowMember(u64),
    /// The role may view the channel and send messages there.
    AllowRole(u64),
}

/// A text channel to create, and the message to post in it.
#[derive(Debug)]
pub struct ChannelPlan {
    pub guild: u64,
    pub name: String,
    pub category: Option<u64>,
    pub overwrites: Vec<Overwrite>,
    pub welcome: Option<String>,
    pub close_button: bool,
}

/// The overrides of a new channel: none when neither a member nor a role
/// is given; otherwise the channel is hidden from everyone and opened to
/// the member and the role whose ids read as numbers.
pub open spec fn overwrites_spec(guild: u64, user: Option<Seq<char>>, role: Option<Seq<char>>) -> Seq<Overwrite> {
    if user is None && role is None {
        Seq::empty()
    } else {
        let base = seq![Overwrite::HideFromEveryone(guild)];
        let with_user = match user {
            Some(u) => match some_id(u) {
                Some(id) => base.push(Overwrite::AllowMember(id)),
                None => base,
            },
            None => base,
        };
        match role {
            Some(r) => match some_id(r) {
                Some(id) => with_user.push(Overwrite::AllowRole(id)),
                None => with_user,
            },
            None => with_user,
        }
    }
}

fn opt_view(s: Option<&str>) -> (r: Option<u64>)
    ensures
        r == (match s {
            Some(t) => some_id(t@),
            None => None,
        }),
{
    match s {
        Some(t) => parse_u64(t),
        None => None,
    }
}

/// Plans a new text channel of the guild `guild_id`, under the category
/// whose id reads as a number, private to a member and a role where they
/// are given; the welcome message, if any, carries a close button when
/// asked for.
pub fn plan_channel(
    guild_id: &str,
    name: String,
    category_id: Option<&str>,
    user_id: Option<&str>,
    role_id: Option<&str>,
    welcome: Option<String>,
    close_button: Option<bool>,
) -> (p: ChannelPlan)
    ensures
        p.guild == id_of(guild_id@),
        p.name@ == name@,
        p.category == (match category_id {
            Some(c) => some_id(c@),
            None => None,
        }),
        p.overwrites@ == overwrites_spec(
            id_of(guild_id@),
            match user_id {
                Some(u) => Some(u@),
                None => None,
            },
            match role_id {
                Some(r) => Some(r@),
                None => None,
            },
        ),
        p.welcome.deep_view() == welcome.deep_view(),
        p.close_button == (close_button == Some(true)),
{
    let guild = id_or_zero(guild_id);
    let mut overwrites: Vec<Overwrite> = Vec::new();
    if user_id.is_some() || role_id.is_some() {
        overwrites.push(Overwrite::HideFromEveryone(guild));
        if let Some(uid) = opt_view(user_id) {
            overwrites.push(Overwrite::AllowMember(uid));
        }
        if let Some(rid) = opt_view(role_id) {
            overwrites.push(Overwrite::AllowRole(rid));
        }
    }
    proof {
        if user_id is None && role_id is None {
            assert(overwrites@ =~= Seq::<Overwrite>::empty());
        }
    }
    ChannelPlan {
        guild,
        name,
        category: opt_view(category_id),
        overwrites,
        welcome,
        close_button: match close_button {
            Some(b) => b,
            None => false,
        },
    }
}

/// When a member's timeout of `secs` seconds, set at `now` (seconds since
/// the epoch), ends; none lifts the timeout.
pub fn timeout_until(now: u64, secs: u64) -> (r: Option<u64>)
    requires
        secs == 0 || now + secs <= u64::MAX,
    ensures
        r == (if secs == 0 {
            None
        } else {
            Some((now + secs) as u64)
        }),
{
    if secs == 0 {
        None
    } else {
        Some(now + secs)
    }
}

/// Whether a file name has the extension `lua`: it ends with `.lua` after
/// at least one other character.
pub open spec fn is_lua_name(name: Seq<char>) -> bool {
    name.len() > 4 && ends_with(name, ".lua"@)
}

/// Whether a file name has the extension `lua`.
pub fn is_lua_file(name: &str) -> (r: bool)
    ensures
        r == is_lua_name(name@),
{
    let v = chars_of(name);
    let w = chars_of("lua");
    proof {
        reveal_strlit("lua");
        reveal_strlit(".lua");
        assert(seq!['.'] + "lua"@ =~= ".lua"@);
    }
    v.len() > 4 && ends_with_sep(&v, '.', &w)
}

/// The plugin files of a folder in the order they load: the names with the
/// extension `lua`, in name order.
pub open spec fn load_order_spec(names: Seq<Seq<char>>) -> Seq<Seq<char>> {
    payloads(sorted_by_key(lua_keyed(names)))
}

/// The names with the extension `lua`, in order, each keyed by itself.
pub open spec fn lua_keyed(names: Seq<Seq<char>>) -> Seq<(Seq<char>, Seq<char>)>
    decreases names.len(),
{
    if names.len() == 0 {
        Seq::empty()
    } else {
        let prev = lua_keyed(names.drop_last());
        if is_lua_name(names.last()) {
            prev.push((names.last(), names.last()))
        } else {
            prev
        }
    }
}

/// Orders the files of the plugin folder for loading: the `.lua` files, by
/// name.
pub fn load_order(names: &Vec<String>) -> (r: Vec<String>)
    ensures
        r.deep_view() == load_order_spec(names.deep_view()),
{
    let ghost all = names.deep_view();
    let mut keyed: Vec<(String, String)> = Vec::new();
    let mut i: usize = 0;
    while i < names.len()
        invariant
            i <= names.len(),
            all == names.deep_view(),
            keyed.deep_view() == lua_keyed(all.subrange(0, i as int)),
        decreases names.len() - i,
    {
        assert(all[i as int] == names@[i as int]@);
        assert(all.subrange(0, i + 1).drop_last() =~= all.subrange(0, i as int));
        if is_lua_file(names[i].as_str()) {
            push_deep(&mut keyed, (names[i].clone(), names[i].clone()));
        }
        i = i + 1;
    }
    assert(all.subrange(0, i as int) =~= all);
    let sorted = sort_by_key(keyed);
    take_payloads(sorted)
}

fn take_payloads(v: Vec<(String, String)>) -> (r: Vec<String>)
    ensures
        r.deep_view() == payloads(v.deep_view()),
{
    let ghost all = v.deep_view();
    let mut r: Vec<String> = Vec::new();
    let mut i: usize = 0;
    while i < v.len()
        invariant
            i <= v.len(),
            all == v.deep_view(),
            r.deep_view() == payloads(all.subrange(0, i as int)),
        decreases v.len() - i,
    {
        assert(all[i as int] == v@[i as int].deep_view());
        push_deep(&mut r, v[i].1.clone());
        assert(r.deep_view() =~= payloads(all.subrange(0, i + 1)));
        i = i + 1;
    }
    assert(all.subrange(0, i as int) =~= all);
    r
}

/// The report after loading `count` plugins without an error.
pub fn loaded_report(count: usize) -> (r: String)
    ensures
        r@ == "Loaded "@ + decimal_string(count as nat) + " plugins."@,
{
    let mut r = "Loaded ".to_owned();
    push_decimal(&mut r, count as u64);
    r.append(" plugins.");
    r
}

} // verus!
