//! The engine's shared data types: permission and log levels, the events
//! and commands exchanged between the bot and the dashboard, the Discord
//! cache, and plugin configuration schemas.
use vstd::prelude::*;
use crate::strmap::StrMap;
use crate::text::{ascii_lower, chars_of, lower_char_exec};

verus! {

/// Permission levels, from least to most privileged. The owner level is
/// given automatically to a guild's owner.
#[derive(Debug, Clone, Copy, PartialEq, Eq, PartialOrd, Ord)]
pub enum PermLevel {
    User,
    Helper,
    Moderator,
    Admin,
    Owner,
}

pub open spec fn word_user() -> Seq<char> {
    seq!['u', 's', 'e', 'r']
}

pub open spec fn word_helper() -> Seq<char> {
    seq!['h', 'e', 'l', 'p', 'e', 'r']
}

pub open spec fn word_moderator() -> Seq<char> {
    seq!['m', 'o', 'd', 'e', 'r', 'a', 't', 'o', 'r']
}

pub open spec fn word_admin() -> Seq<char> {
    seq!['a', 'd', 'm', 'i', 'n']
}

pub open spec fn word_owner() -> Seq<char> {
    seq!['o', 'w', 'n', 'e', 'r']
}

impl PermLevel {
    /// The position of the level in the order User < Helper < Moderator < Admin < Owner.
    pub open spec fn rank(self) -> nat {
        match self {
            PermLevel::User => 0,
            PermLevel::Helper => 1,
            PermLevel::Moderator => 2,
            PermLevel::Admin => 3,
            PermLevel::Owner => 4,
        }
    }

    /// The level's lower-case name.
    pub open spec fn name(self) -> Seq<char> {
        match self {
            PermLevel::User => word_user(),
            PermLevel::Helper => word_helper(),
            PermLevel::Moderator => word_moderator(),
            PermLevel::Admin => word_admin(),
            PermLevel::Owner => word_owner(),
        }
    }

    /// The level whose name is exactly `s`.
    pub open spec fn named(s: Seq<char>) -> Option<PermLevel> {
        if s == word_user() {
            Some(PermLevel::User)
        } else if s == word_helper() {
            Some(PermLevel::Helper)
        } else if s == word_moderator() {
            Some(PermLevel::Moderator)
        } else if s == word_admin() {
            Some(PermLevel::Admin)
        } else if s == word_owner() {
            Some(PermLevel::Owner)
        } else {
            None
        }
    }

    /// The level's position in the order, as a number.
    pub fn level(&self) -> (r: u8)
        ensures
            r == self.rank(),
    {
        match self {
            PermLevel::User => 0,
            PermLevel::Helper => 1,
            PermLevel::Moderator => 2,
            PermLevel::Admin => 3,
            PermLevel::Owner => 4,
        }
    }

    /// Whether this level is `other` or above it.
    pub fn at_least(&self, other: &PermLevel) -> (r: bool)
        ensures
            r == (self.rank() >= other.rank()),
    {
        self.level() >= other.level()
    }

    /// Parses a level name, ignoring ASCII case.
    pub fn from_str(s: &str) -> (r: Option<PermLevel>)
        ensures
            r == PermLevel::named(ascii_lower(s@)),
    {
        let v = chars_of(s);
        let mut low: Vec<char> = Vec::new();
        let mut i: usize = 0;
        while i < v.len()
            invariant
                i <= v.len(),
                v@ == s@,
                low@ == ascii_lower(s@).subrange(0, i as int),
            decreases v.len() - i,
        {
            low.push(lower_char_exec(v[i]));
            i = i + 1;
            assert(low@ =~= ascii_lower(s@).subrange(0, i as int));
        }
        assert(low@ =~= ascii_lower(s@));
        let user: [char; 4] = ['u', 's', 'e', 'r'];
        let helper: [char; 6] = ['h', 'e', 'l', 'p', 'e', 'r'];
        let moderator: [char; 9] = ['m', 'o', 'd', 'e', 'r', 'a', 't', 'o', 'r'];
        let admin: [char; 5] = ['a', 'd', 'm', 'i', 'n'];
        let owner: [char; 5] = ['o', 'w', 'n', 'e', 'r'];
        assert(user@ =~= word_user());
        assert(helper@ =~= word_helper());
        assert(moderator@ =~= word_moderator());
        assert(admin@ =~= word_admin());
        assert(owner@ =~= word_owner());
        if same_chars(&low, &user) {
            Some(PermLevel::User)
        } else if same_chars(&low, &helper) {
            Some(PermLevel::Helper)
        } else if same_chars(&low, &moderator) {
            Some(PermLevel::Moderator)
        } else if same_chars(&low, &admin) {
            Some(PermLevel::Admin)
        } else if same_chars(&low, &owner) {
            Some(PermLevel::Owner)
        } else {
            None
        }
    }

    /// The level's lower-case name.
    pub fn as_str(&self) -> (r: &'static str)
        ensures
            r@ == self.name(),
    {
        match self {
            PermLevel::User => {
                proof {
                    reveal_strlit("user");
                }
                "user"
            },
            PermLevel::Helper => {
                proof {
                    reveal_strlit("helper");
                }
                "helper"
            },
            PermLevel::Moderator => {
                proof {
                    reveal_strlit("moderator");
                }
                "moderator"
            },
            PermLevel::Admin => {
                proof {
                    reveal_strlit("admin");
                }
                "admin"
            },
            PermLevel::Owner => {
                proof {
                    reveal_strlit("owner");
                }
                "owner"
            },
        }
    }
}

/// Whether `v` holds exactly the characters of `w`.
pub fn same_chars(v: &Vec<char>, w: &[char]) -> (r: bool)
    ensures
        r == (v@ == w@),
{
    if v.len() != w.len() {
        return false;
    }
    let mut i: usize = 0;
    while i < v.len()
        invariant
            i <= v.len(),
            v.len() == w@.len(),
            forall|j: int| 0 <= j < i ==> v@[j] == w@[j],
        decreases v.len() - i,
    {
        if v[i] != w[i] {
            return false;
        }
        i = i + 1;
    }
    assert(v@ =~= w@);
    true
}

/// Law: the levels are strictly ordered User < Helper < Moderator < Admin
/// < Owner, so two levels rank the same only when they are the same level.
pub proof fn law_levels_strictly_ordered(a: PermLevel, b: PermLevel)
    ensures
        PermLevel::User.rank() < PermLevel::Helper.rank(),
        PermLevel::Helper.rank() < PermLevel::Moderator.rank(),
        PermLevel::Moderator.rank() < PermLevel::Admin.rank(),
        PermLevel::Admin.rank() < PermLevel::Owner.rank(),
        a.rank() == b.rank() ==> a == b,
        a != b ==> (a.rank() < b.rank() || b.rank() < a.rank()),
{
}

/// The levels from least to most privileged.
pub open spec fn levels_in_order() -> Seq<PermLevel> {
    seq![PermLevel::User, PermLevel::Helper, PermLevel::Moderator, PermLevel::Admin, PermLevel::Owner]
}

/// Law: going up the list of levels from least to most privileged, the rank
/// strictly grows: one level ranks at most another exactly when it comes no
/// later in the list, and every level is in the list.
pub proof fn law_rank_follows_order(i: int, j: int, l: PermLevel)
    requires
        0 <= i < 5,
        0 <= j < 5,
    ensures
        levels_in_order().len() == 5,
        (levels_in_order()[i].rank() <= levels_in_order()[j].rank()) <==> i <= j,
        levels_in_order().contains(l),
{
    let o = levels_in_order();
    assert(o[0] == PermLevel::User && o[1] == PermLevel::Helper && o[2] == PermLevel::Moderator);
    assert(o[3] == PermLevel::Admin && o[4] == PermLevel::Owner);
    let k: int = match l {
        PermLevel::User => 0,
        PermLevel::Helper => 1,
        PermLevel::Moderator => 2,
        PermLevel::Admin => 3,
        PermLevel::Owner => 4,
    };
    assert(o[k] == l);
}

/// Law: every level's name parses back to that level, whatever the case of
/// its letters.
pub proof fn law_level_name_roundtrip(l: PermLevel)
    ensures
        PermLevel::named(ascii_lower(l.name())) == Some(l),
{
    assert(ascii_lower(l.name()) =~= l.name());
}

/// Law: names that differ only in ASCII case parse to the same level.
pub proof fn law_level_parse_ignores_case(s: Seq<char>, t: Seq<char>)
    requires
        ascii_lower(s) == ascii_lower(t),
    ensures
        PermLevel::named(ascii_lower(s)) == PermLevel::named(ascii_lower(t)),
{
}

/// Log levels of the dashboard's log view.
#[derive(Debug, Clone, Copy, PartialEq, Eq, Structural)]
pub enum LogLevel {
    Info,
    Warn,
    Error,
}

impl View for LogLevel {
    type V = LogLevel;

    open spec fn view(&self) -> LogLevel {
        *self
    }
}

impl DeepView for LogLevel {
    type V = LogLevel;

    open spec fn deep_view(&self) -> LogLevel {
        *self
    }
}

/// What the bot tells the dashboard.
#[derive(Debug)]
pub enum BotEvent {
    Log(LogLevel, String),
}

/// What the dashboard asks the bot to do.
#[derive(Debug)]
pub enum AdminCommand {
    Shutdown,
    Reload,
    RefreshCache,
    CheckUpdate,
    SaveConfig { plugin: String, key: String, value: String },
    AppendListItem { plugin: String, key: String, item: StrMap },
    UpdateListItem { plugin: String, key: String, index: usize, item: StrMap },
    DeleteListItem { plugin: String, key: String, index: usize },
}

/// The abstract content of an [`AdminCommand`].
pub enum CommandView {
    Shutdown,
    Reload,
    RefreshCache,
    CheckUpdate,
    SaveConfig { plugin: Seq<char>, key: Seq<char>, value: Seq<char> },
    AppendListItem { plugin: Seq<char>, key: Seq<char>, item: Map<Seq<char>, Seq<char>> },
    UpdateListItem {
        plugin: Seq<char>,
        key: Seq<char>,
        index: nat,
        item: Map<Seq<char>, Seq<char>>,
    },
    DeleteListItem { plugin: Seq<char>, key: Seq<char>, index: nat },
}

impl View for AdminCommand {
    type V = CommandView;

    open spec fn view(&self) -> CommandView {
        match self {
            AdminCommand::Shutdown => CommandView::Shutdown,
            AdminCommand::Reload => CommandView::Reload,
            AdminCommand::RefreshCache => CommandView::RefreshCache,
            AdminCommand::CheckUpdate => CommandView::CheckUpdate,
            AdminCommand::SaveConfig { plugin, key, value } => CommandView::SaveConfig {
                plugin: plugin@,
                key: key@,
                value: value@,
            },
            AdminCommand::AppendListItem { plugin, key, item } => CommandView::AppendListItem {
                plugin: plugin@,
                key: key@,
                item: item@,
            },
            AdminCommand::UpdateListItem { plugin, key, index, item } => CommandView::UpdateListItem {
                plugin: plugin@,
                key: key@,
                index: *index as nat,
                item: item@,
            },
            AdminCommand::DeleteListItem { plugin, key, index } => CommandView::DeleteListItem {
                plugin: plugin@,
                key: key@,
                index: *index as nat,
            },
        }
    }
}

/// The kinds of value a configuration field can hold.
#[derive(Clone, Copy, Debug, PartialEq, Eq, Structural)]
pub enum ConfigType {
    String,
    Number,
    Boolean,
    Channel,
    Role,
    Category,
    List,
    Enum,
}

/// A sub-field of the items of a list field.
#[derive(Clone, Debug)]
pub struct ConfigItemSchema {
    pub key: String,
    pub name: String,
    pub field_type: ConfigType,
    pub enum_options: Vec<String>,
}

pub struct ItemSchemaView {
    pub key: Seq<char>,
    pub name: Seq<char>,
    pub field_type: ConfigType,
    pub enum_options: Seq<Seq<char>>,
}

impl View for ConfigItemSchema {
    type V = ItemSchemaView;

    open spec fn view(&self) -> ItemSchemaView {
        ItemSchemaView {
            key: self.key@,
            name: self.name@,
            field_type: self.field_type,
            enum_options: self.enum_options.deep_view(),
        }
    }
}

impl DeepView for ConfigItemSchema {
    type V = ItemSchemaView;

    open spec fn deep_view(&self) -> ItemSchemaView {
        self@
    }
}

/// A role of a guild, with its colour as red, green and blue.
#[derive(Debug)]
pub struct DiscordRole {
    pub id: String,
    pub name: String,
    pub color: (u8, u8, u8),
}

pub struct RoleView {
    pub id: Seq<char>,
    pub name: Seq<char>,
    pub color: (u8, u8, u8),
}

impl View for DiscordRole {
    type V = RoleView;

    open spec fn view(&self) -> RoleView {
        RoleView { id: self.id@, name: self.name@, color: self.color }
    }
}

impl DeepView for DiscordRole {
    type V = RoleView;

    open spec fn deep_view(&self) -> RoleView {
        self@
    }
}

/// The cached Discord data: channels and categories as (id, name), roles,
/// and the owner of each guild by guild id.
#[derive(Debug)]
pub struct DiscordState {
    pub channels: Vec<(String, String)>,
    pub categories: Vec<(String, String)>,
    pub roles: Vec<DiscordRole>,
    pub guild_owners: StrMap,
}

pub struct DiscordView {
    pub channels: Seq<(Seq<char>, Seq<char>)>,
    pub categories: Seq<(Seq<char>, Seq<char>)>,
    pub roles: Seq<RoleView>,
    pub guild_owners: Map<Seq<char>, Seq<char>>,
}

impl View for DiscordState {
    type V = DiscordView;

    open spec fn view(&self) -> DiscordView {
        DiscordView {
            channels: self.channels.deep_view(),
            categories: self.categories.deep_view(),
            roles: self.roles.deep_view(),
            guild_owners: self.guild_owners@,
        }
    }
}

impl DiscordState {
    /// An empty cache.
    pub fn new() -> (s: DiscordState)
        ensures
            s@.channels.len() == 0,
            s@.categories.len() == 0,
            s@.roles.len() == 0,
            s@.guild_owners == Map::<Seq<char>, Seq<char>>::empty(),
    {
        DiscordState {
            channels: Vec::new(),
            categories: Vec::new(),
            roles: Vec::new(),
            guild_owners: StrMap::new(),
        }
    }

    /// Records `owner_id` as the owner of the guild `guild_id`.
    pub fn set_guild_owner(&mut self, guild_id: String, owner_id: String)
        ensures
            final(self)@.guild_owners == old(self)@.guild_owners.insert(guild_id@, owner_id@),
            final(self)@.channels == old(self)@.channels,
            final(self)@.categories == old(self)@.categories,
            final(self)@.roles == old(self)@.roles,
    {
        self.guild_owners.insert(guild_id, owner_id);
    }
}

/// A single setting of a plugin.
#[derive(Clone, Debug)]
pub struct ConfigField {
    pub key: String,
    pub name: String,
    pub description: String,
    pub field_type: ConfigType,
    pub default_value: String,
    pub item_schema: Vec<ConfigItemSchema>,
    pub list_items: Vec<StrMap>,
    pub enum_options: Vec<String>,
}

pub struct FieldView {
    pub key: Seq<char>,
    pub name: Seq<char>,
    pub description: Seq<char>,
    pub field_type: ConfigType,
    pub default_value: Seq<char>,
    pub item_schema: Seq<ItemSchemaView>,
    pub list_items: Seq<Map<Seq<char>, Seq<char>>>,
    pub enum_options: Seq<Seq<char>>,
}

impl View for ConfigField {
    type V = FieldView;

    open spec fn view(&self) -> FieldView {
        FieldView {
            key: self.key@,
            name: self.name@,
            description: self.description@,
            field_type: self.field_type,
            default_value: self.default_value@,
            item_schema: self.item_schema.deep_view(),
            list_items: self.list_items.deep_view(),
            enum_options: self.enum_options.deep_view(),
        }
    }
}

impl DeepView for ConfigField {
    type V = FieldView;

    open spec fn deep_view(&self) -> FieldView {
        self@
    }
}

/// The configuration schema of one plugin.
#[derive(Clone, Debug)]
pub struct PluginSchema {
    pub fields: Vec<ConfigField>,
}

impl View for PluginSchema {
    type V = Seq<FieldView>;

    open spec fn view(&self) -> Seq<FieldView> {
        self.fields.deep_view()
    }
}

impl DeepView for PluginSchema {
    type V = Seq<FieldView>;

    open spec fn deep_view(&self) -> Seq<FieldView> {
        self@
    }
}

} // verus!
