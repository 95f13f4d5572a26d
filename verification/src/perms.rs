//! Permission levels of guild members: the owner of a guild is at the top;
//! everyone else gets the highest level that a role they hold is mapped to.
use vstd::prelude::*;
use vstd::string::StringExecFns;
use crate::json::{decode_string_map, decoded_map};
use crate::strmap::StrMap;
use crate::text::ascii_lower;
use crate::types::{
    law_level_name_roundtrip, law_rank_follows_order, levels_in_order, ConfigField, ConfigItemSchema,
    ConfigType, PermLevel, PluginSchema,
};

verus! {

pub open spec fn key_role_id() -> Seq<char> {
    "role_id"@
}

pub open spec fn key_level() -> Seq<char> {
    "level"@
}

/// The level a role mapping grants to a member holding `roles`: the
/// mapping's level when it names one of those roles and a known level.
pub open spec fn mapping_grant(m: Map<Seq<char>, Seq<char>>, roles: Seq<Seq<char>>) -> Option<PermLevel> {
    if m.contains_key(key_role_id()) && m.contains_key(key_level()) && roles.contains(
        m[key_role_id()],
    ) {
        PermLevel::named(ascii_lower(m[key_level()]))
    } else {
        None
    }
}

/// The highest level granted by the mappings, going through them in order
/// and keeping a level only when it is strictly higher; `User` when none
/// grants anything.
pub open spec fn best_granted(ms: Seq<Map<Seq<char>, Seq<char>>>, roles: Seq<Seq<char>>) -> PermLevel
    decreases ms.len(),
{
    if ms.len() == 0 {
        PermLevel::User
    } else {
        let b = best_granted(ms.drop_last(), roles);
        match mapping_grant(ms.last(), roles) {
            Some(l) => if l.rank() > b.rank() {
                l
            } else {
                b
            },
            None => b,
        }
    }
}

/// The level of `user` in `guild`.
pub open spec fn user_level_spec(
    user: Seq<char>,
    guild: Seq<char>,
    roles: Seq<Seq<char>>,
    owners: Map<Seq<char>, Seq<char>>,
    ms: Seq<Map<Seq<char>, Seq<char>>>,
) -> PermLevel {
    if owners.contains_key(guild) && owners[guild] == user {
        PermLevel::Owner
    } else {
        best_granted(ms, roles)
    }
}

fn holds_role(roles: &Vec<String>, role: &String) -> (r: bool)
    ensures
        r == roles.deep_view().contains(role@),
{
    let mut i: usize = 0;
    while i < roles.len()
        invariant
            i <= roles.len(),
            forall|j: int| 0 <= j < i ==> roles.deep_view()[j] != role@,
        decreases roles.len() - i,
    {
        assert(roles.deep_view()[i as int] == roles@[i as int]@);
        if roles[i] == *role {
            assert(roles.deep_view()[i as int] == role@);
            return true;
        }
        i = i + 1;
    }
    proof {
        if roles.deep_view().contains(role@) {
            let j = choose|j: int| 0 <= j < roles.deep_view().len() && roles.deep_view()[j] == role@;
            assert(roles.deep_view()[j] != role@);
        }
    }
    false
}

fn grant_of(m: &StrMap, roles: &Vec<String>) -> (r: Option<PermLevel>)
    ensures
        r == mapping_grant(m@, roles.deep_view()),
{
    proof {
        reveal_strlit("role_id");
        reveal_strlit("level");
    }
    match (m.get("role_id"), m.get("level")) {
        (Some(role), Some(level)) => {
            if holds_role(roles, role) {
                PermLevel::from_str(level.as_str())
            } else {
                None
            }
        },
        _ => None,
    }
}

/// The permission level of `user_id` in `guild_id`, holding `member_roles`,
/// given the guild owners and the role mappings.
pub fn user_level(
    user_id: &str,
    guild_id: &str,
    member_roles: &Vec<String>,
    owners: &StrMap,
    mappings: &Vec<StrMap>,
) -> (r: PermLevel)
    ensures
        r == user_level_spec(user_id@, guild_id@, member_roles.deep_view(), owners@, mappings.deep_view()),
{
    match owners.get(guild_id) {
        Some(o) => {
            if *o == user_id.to_owned() {
                return PermLevel::Owner;
            }
        },
        None => {},
    }
    let ghost ms = mappings.deep_view();
    let mut best = PermLevel::User;
    let mut i: usize = 0;
    while i < mappings.len()
        invariant
            i <= mappings.len(),
            ms == mappings.deep_view(),
            best == best_granted(ms.subrange(0, i as int), member_roles.deep_view()),
        decreases mappings.len() - i,
    {
        proof {
            assert(ms.subrange(0, i + 1).drop_last() =~= ms.subrange(0, i as int));
            assert(ms[i as int] == mappings@[i as int]@);
        }
        match grant_of(&mappings[i], member_roles) {
            Some(l) => {
                if l.level() > best.level() {
                    best = l;
                }
            },
            None => {},
        }
        i = i + 1;
    }
    assert(ms.subrange(0, i as int) =~= ms);
    best
}

} // verus!
verus! {

/// Law: a guild's owner has the owner level, whatever roles they hold.
pub proof fn law_owner_is_top(
    user: Seq<char>,
    guild: Seq<char>,
    roles: Seq<Seq<char>>,
    owners: Map<Seq<char>, Seq<char>>,
    ms: Seq<Map<Seq<char>, Seq<char>>>,
)
    requires
        owners.contains_key(guild),
        owners[guild] == user,
    ensures
        user_level_spec(user, guild, roles, owners, ms) == PermLevel::Owner,
{
}

/// Law: a member's level is at least every level that a mapping of one of
/// their roles grants.
pub proof fn law_level_covers_grants(ms: Seq<Map<Seq<char>, Seq<char>>>, roles: Seq<Seq<char>>, i: int)
    requires
        0 <= i < ms.len(),
        mapping_grant(ms[i], roles) is Some,
    ensures
        best_granted(ms, roles).rank() >= mapping_grant(ms[i], roles)->0.rank(),
    decreases ms.len(),
{
    lemma_best_monotone(ms, roles);
    if i < ms.len() - 1 {
        law_level_covers_grants(ms.drop_last(), roles, i);
        assert(ms.drop_last()[i] == ms[i]);
    }
}

proof fn lemma_best_monotone(ms: Seq<Map<Seq<char>, Seq<char>>>, roles: Seq<Seq<char>>)
    ensures
        ms.len() > 0 ==> best_granted(ms, roles).rank() >= best_granted(ms.drop_last(), roles).rank(),
{
}

/// Law: a member's level is `User` or a level that some mapping of one of
/// their roles grants.
pub proof fn law_level_is_granted(ms: Seq<Map<Seq<char>, Seq<char>>>, roles: Seq<Seq<char>>)
    ensures
        best_granted(ms, roles) == PermLevel::User || exists|i: int|
            0 <= i < ms.len() && mapping_grant(ms[i], roles) == Some(best_granted(ms, roles)),
    decreases ms.len(),
{
    if ms.len() > 0 {
        law_level_is_granted(ms.drop_last(), roles);
        let b = best_granted(ms.drop_last(), roles);
        if best_granted(ms, roles) != b {
            assert(mapping_grant(ms[ms.len() - 1], roles) == Some(best_granted(ms, roles)));
        } else if b != PermLevel::User {
            let i = choose|i: int|
                0 <= i < ms.drop_last().len() && mapping_grant(ms.drop_last()[i], roles) == Some(b);
            assert(ms[i] == ms.drop_last()[i]);
        }
    }
}

/// Who is asking: the member, the guild, and the roles the member holds.
#[derive(Debug)]
pub struct PermContext {
    pub user_id: String,
    pub guild_id: String,
    pub member_roles: Vec<String>,
}

/// The answer to a permission check.
#[derive(Debug, Clone, Copy, PartialEq, Eq, Structural)]
pub enum PermDecision {
    /// The level asked for is not a level name.
    UnknownLevel,
    /// There is no member or guild to check (a direct message).
    NoContext,
    Granted,
    Denied,
}

pub open spec fn check_spec(
    level: Seq<char>,
    ctx: Option<(Seq<char>, Seq<char>, Seq<Seq<char>>)>,
    owners: Map<Seq<char>, Seq<char>>,
    ms: Seq<Map<Seq<char>, Seq<char>>>,
) -> PermDecision {
    match PermLevel::named(ascii_lower(level)) {
        None => PermDecision::UnknownLevel,
        Some(required) => match ctx {
            None => PermDecision::NoContext,
            Some(c) => if user_level_spec(c.0, c.1, c.2, owners, ms).rank() >= required.rank() {
                PermDecision::Granted
            } else {
                PermDecision::Denied
            },
        },
    }
}

pub open spec fn ctx_view(ctx: Option<&PermContext>) -> Option<(Seq<char>, Seq<char>, Seq<Seq<char>>)> {
    match ctx {
        Some(c) => Some((c.user_id@, c.guild_id@, c.member_roles.deep_view())),
        None => None,
    }
}

/// Whether the member in `ctx` has at least the level named `level`.
pub fn check_perm(level: &str, ctx: Option<&PermContext>, owners: &StrMap, mappings: &Vec<StrMap>) -> (r: PermDecision)
    ensures
        r == check_spec(level@, ctx_view(ctx), owners@, mappings.deep_view()),
{
    match PermLevel::from_str(level) {
        None => PermDecision::UnknownLevel,
        Some(required) => match ctx {
            None => PermDecision::NoContext,
            Some(c) => {
                let l = user_level(c.user_id.as_str(), c.guild_id.as_str(), &c.member_roles, owners, mappings);
                if l.at_least(&required) {
                    PermDecision::Granted
                } else {
                    PermDecision::Denied
                }
            },
        },
    }
}

/// Law: a member granted a level is granted every lower level.
pub proof fn law_check_monotone(
    hi: Seq<char>,
    lo: Seq<char>,
    ctx: Option<(Seq<char>, Seq<char>, Seq<Seq<char>>)>,
    owners: Map<Seq<char>, Seq<char>>,
    ms: Seq<Map<Seq<char>, Seq<char>>>,
)
    requires
        check_spec(hi, ctx, owners, ms) == PermDecision::Granted,
        PermLevel::named(ascii_lower(lo)) is Some,
        PermLevel::named(ascii_lower(lo))->0.rank() <= PermLevel::named(ascii_lower(hi))->0.rank(),
    ensures
        check_spec(lo, ctx, owners, ms) == PermDecision::Granted,
{
}

/// Law: a member whose level is the `i`-th of User < Helper < Moderator <
/// Admin < Owner is granted the `j`-th level, asked for by its name, when
/// `j` is at most `i`, and denied it when `j` is above: a moderator is
/// denied `admin`.
pub proof fn law_check_follows_order(
    i: int,
    j: int,
    user: Seq<char>,
    guild: Seq<char>,
    roles: Seq<Seq<char>>,
    owners: Map<Seq<char>, Seq<char>>,
    ms: Seq<Map<Seq<char>, Seq<char>>>,
)
    requires
        0 <= i < 5,
        0 <= j < 5,
        user_level_spec(user, guild, roles, owners, ms) == levels_in_order()[i],
    ensures
        check_spec(levels_in_order()[j].name(), Some((user, guild, roles)), owners, ms) == (if j <= i {
            PermDecision::Granted
        } else {
            PermDecision::Denied
        }),
{
    law_rank_follows_order(j, i, PermLevel::User);
    law_level_name_roundtrip(levels_in_order()[j]);
}

/// The level name that `get_perm_level` answers: `user` without a member
/// to check.
pub fn perm_level_name(ctx: Option<&PermContext>, owners: &StrMap, mappings: &Vec<StrMap>) -> (r: &'static str)
    ensures
        r@ == match ctx_view(ctx) {
            Some(c) => user_level_spec(c.0, c.1, c.2, owners@, mappings.deep_view()).name(),
            None => PermLevel::User.name(),
        },
{
    match ctx {
        None => PermLevel::User.as_str(),
        Some(c) => user_level(c.user_id.as_str(), c.guild_id.as_str(), &c.member_roles, owners, mappings).as_str(),
    }
}

/// The warning logged for a level name that is not a level.
pub fn unknown_level_message(level: &str) -> (r: String)
    ensures
        r@ == "[perms] Unknown level: '"@ + level@ + "'"@,
{
    let mut r = "[perms] Unknown level: '".to_owned();
    r.append(level);
    r.append("'");
    r
}

/// The reply sent to a member denied a level.
pub fn denial_message(level: &str) -> (r: String)
    ensures
        r@ == "❌ You need **"@ + level@ + "** permission to use this."@,
{
    let mut r = "❌ You need **".to_owned();
    r.append(level);
    r.append("** permission to use this.");
    r
}

/// The stored mapping texts that decode, as maps, in order.
pub open spec fn decoded_items(raw: Seq<Option<Seq<char>>>) -> Seq<Map<Seq<char>, Seq<char>>>
    decreases raw.len(),
{
    if raw.len() == 0 {
        Seq::empty()
    } else {
        let prev = decoded_items(raw.drop_last());
        match raw.last() {
            Some(t) => match decoded_map(t) {
                Some(m) => prev.push(m),
                None => prev,
            },
            None => prev,
        }
    }
}

/// Decodes the stored items of a list setting, skipping empty slots and
/// texts that are not JSON objects of strings.
pub fn decode_items(raw: &Vec<Option<String>>) -> (r: Vec<StrMap>)
    ensures
        r.deep_view() == decoded_items(raw.deep_view()),
{
    let ghost rv = raw.deep_view();
    let mut out: Vec<StrMap> = Vec::new();
    let mut i: usize = 0;
    while i < raw.len()
        invariant
            i <= raw.len(),
            rv == raw.deep_view(),
            out.deep_view() == decoded_items(rv.subrange(0, i as int)),
        decreases raw.len() - i,
    {
        proof {
            assert(rv.subrange(0, i + 1).drop_last() =~= rv.subrange(0, i as int));
            assert(rv[i as int] == raw@[i as int].deep_view());
        }
        match &raw[i] {
            Some(t) => match decode_string_map(t.as_str()) {
                Some(m) => crate::vecs::push_deep(&mut out, m),
                None => {},
            },
            None => {},
        }
        i = i + 1;
    }
    assert(rv.subrange(0, i as int) =~= rv);
    out
}

/// The built-in configuration of the permission system: one list field,
/// `mappings`, whose items map a role to a level.
pub fn permissions_schema(mappings: Vec<StrMap>) -> (s: PluginSchema)
    ensures
        s@.len() == 1,
        s@[0].key == "mappings"@,
        s@[0].name == "Role → Permission Level"@,
        s@[0].description == "Assign roles to levels: helper / moderator / admin  (owner = server owner, automatic)"@,
        s@[0].field_type == ConfigType::List,
        s@[0].default_value.len() == 0,
        s@[0].item_schema.len() == 2,
        s@[0].item_schema[0].key == "role_id"@,
        s@[0].item_schema[0].name == "Discord Role"@,
        s@[0].item_schema[0].field_type == ConfigType::Role,
        s@[0].item_schema[0].enum_options.len() == 0,
        s@[0].item_schema[1].key == "level"@,
        s@[0].item_schema[1].name == "Level (helper/moderator/admin)"@,
        s@[0].item_schema[1].field_type == ConfigType::String,
        s@[0].item_schema[1].enum_options.len() == 0,
        s@[0].list_items == mappings.deep_view(),
        s@[0].enum_options.len() == 0,
{
    let mut item_schema: Vec<ConfigItemSchema> = Vec::new();
    crate::vecs::push_deep(&mut item_schema, ConfigItemSchema {
        key: "role_id".to_owned(),
        name: "Discord Role".to_owned(),
        field_type: ConfigType::Role,
        enum_options: Vec::new(),
    });
    crate::vecs::push_deep(&mut item_schema, ConfigItemSchema {
        key: "level".to_owned(),
        name: "Level (helper/moderator/admin)".to_owned(),
        field_type: ConfigType::String,
        enum_options: Vec::new(),
    });
    let field = ConfigField {
        key: "mappings".to_owned(),
        name: "Role → Permission Level".to_owned(),
        description: "Assign roles to levels: helper / moderator / admin  (owner = server owner, automatic)".to_owned(),
        field_type: ConfigType::List,
        default_value: String::new(),
        item_schema,
        list_items: mappings,
        enum_options: Vec::new(),
    };
    let mut fields: Vec<ConfigField> = Vec::new();
    crate::vecs::push_deep(&mut fields, field);
    PluginSchema { fields }
}

} // verus!
