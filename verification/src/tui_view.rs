//! What the dashboard shows: the parts of a log line, the log view's
//! scroll position, the selections kept within the lists they point into,
//! and the texts of the configuration view.
use vstd::prelude::*;
use vstd::string::StringExecFns;
use crate::registry::PluginRegistry;
use crate::strmap::StrMap;
use crate::text::{chars_of, concat, find_char, index_of, same_text, string_from_chars};
use crate::tui_input::{choice_count, choices};
use crate::tui_state::{AppMode, AppState, AppView, ConfigPane};
use crate::types::{
    ConfigItemSchema, ConfigType, DiscordRole, DiscordState, DiscordView, FieldView, ItemSchemaView,
    LogLevel, RoleView,
};
use crate::vecs::push_deep;

verus! {

/// The marker in front of a log line of the given level.
pub open spec fn level_marker(level: LogLevel) -> Seq<char> {
    match level {
        LogLevel::Error => "[E]"@,
        LogLevel::Warn => "[W]"@,
        LogLevel::Info => "[I]"@,
    }
}

/// The marker in front of a log line of the given level.
pub fn log_prefix(level: LogLevel) -> (r: &'static str)
    ensures
        r@ == level_marker(level),
{
    match level {
        LogLevel::Error => "[E]",
        LogLevel::Warn => "[W]",
        LogLevel::Info => "[I]",
    }
}

/// Whether `c` has the Unicode White_Space property, as `char::is_whitespace`
/// tests it.
pub open spec fn is_white_space(c: char) -> bool {
    let u = c as u32;
    (0x9 <= u && u <= 0xD) || u == 0x20 || u == 0x85 || u == 0xA0 || u == 0x1680 || (0x2000 <= u && u
        <= 0x200A) || u == 0x2028 || u == 0x2029 || u == 0x202F || u == 0x205F || u == 0x3000
}

/// Whether `c` is white space.
pub fn white_space(c: char) -> (r: bool)
    ensures
        r == is_white_space(c),
{
    let u = c as u32;
    (0x9 <= u && u <= 0xD) || u == 0x20 || u == 0x85 || u == 0xA0 || u == 0x1680 || (0x2000 <= u && u
        <= 0x200A) || u == 0x2028 || u == 0x2029 || u == 0x202F || u == 0x205F || u == 0x3000
}

/// The number of white-space characters `s` starts with.
pub open spec fn leading_space(s: Seq<char>) -> nat
    decreases s.len(),
{
    if s.len() > 0 && is_white_space(s[0]) {
        1 + leading_space(s.drop_first())
    } else {
        0
    }
}

/// `s` without the white space it starts with (`str::trim_start`).
pub open spec fn trim_start(s: Seq<char>) -> Seq<char> {
    s.subrange(leading_space(s) as int, s.len() as int)
}

proof fn lemma_leading_space(s: Seq<char>, i: int)
    requires
        0 <= i <= s.len(),
        forall|j: int| 0 <= j < i ==> is_white_space(#[trigger] s[j]),
        i == s.len() || !is_white_space(s[i]),
    ensures
        leading_space(s) == i,
    decreases s.len(),
{
    if s.len() > 0 && i > 0 {
        assert forall|j: int| 0 <= j < i - 1 implies is_white_space(#[trigger] s.drop_first()[j]) by {
            assert(s.drop_first()[j] == s[j + 1]);
        }
        lemma_leading_space(s.drop_first(), i - 1);
    }
}

/// A log message split for display: a message that starts with `[` and has
/// a `]` shows the bracketed tag apart from the rest, whose leading white
/// space is dropped; any other message is all rest.
pub open spec fn log_parts(msg: Seq<char>) -> (Option<Seq<char>>, Seq<char>) {
    if msg.len() > 0 && msg[0] == '[' {
        match index_of(msg, ']') {
            Some(close) => (
                Some(msg.subrange(0, close as int + 1)),
                trim_start(msg.subrange(close as int + 1, msg.len() as int)),
            ),
            None => (None, msg),
        }
    } else {
        (None, msg)
    }
}

/// Splits a log message into its tag, if any, and the rest.
pub fn split_log_tag(msg: &str) -> (r: (Option<String>, String))
    ensures
        r.0.deep_view() == log_parts(msg@).0,
        r.1@ == log_parts(msg@).1,
{
    let v = chars_of(msg);
    assert(v@.subrange(0, v.len() as int) =~= msg@);
    if v.len() > 0 && v[0] == '[' {
        match find_char(&v, 0, v.len(), ']') {
            Some(close) => {
                let tag = string_from_chars(&v, 0, close + 1);
                let mut start = close + 1;
                while start < v.len() && white_space(v[start])
                    invariant
                        close + 1 <= start <= v.len(),
                        forall|j: int| close + 1 <= j < start ==> is_white_space(#[trigger] v@[j]),
                    decreases v.len() - start,
                {
                    start = start + 1;
                }
                proof {
                    let after = msg@.subrange(close + 1, msg@.len() as int);
                    assert forall|j: int| 0 <= j < start - (close + 1) implies is_white_space(#[trigger] after[j]) by {
                        assert(after[j] == v@[j + close + 1]);
                    }
                    if start < v.len() {
                        assert(after[start - (close + 1)] == v@[start as int]);
                    }
                    lemma_leading_space(after, start - (close + 1));
                    assert(trim_start(after) =~= v@.subrange(start as int, v.len() as int));
                }
                let rest = string_from_chars(&v, start, v.len());
                (Some(tag), rest)
            },
            None => (None, msg.to_owned()),
        }
    } else {
        (None, msg.to_owned())
    }
}

/// The lines of text that fit in a pane of height `height` inside its
/// border.
pub open spec fn visible_lines(height: u16) -> u16 {
    if height >= 2 {
        (height - 2) as u16
    } else {
        0
    }
}

/// The furthest the log view can scroll with `lines` lines in a pane of
/// height `height`; the line count is taken modulo 2^16, as a `u16`.
pub open spec fn scroll_limit(lines: usize, height: u16) -> u16 {
    let n = lines as u16;
    if n >= visible_lines(height) {
        (n - visible_lines(height)) as u16
    } else {
        0
    }
}

/// Updates the log view's scroll limit for `lines` lines in a pane of
/// height `height`, jumps to the bottom when following new lines, and
/// returns the offset to show: the scroll position, kept within the limit.
pub fn update_log_scroll(state: &mut AppState, lines: usize, height: u16) -> (offset: u16)
    ensures
        final(state)@ == (AppView {
            log_scroll_max: scroll_limit(lines, height),
            log_scroll: if old(state)@.log_auto_scroll {
                scroll_limit(lines, height)
            } else {
                old(state)@.log_scroll
            },
            ..old(state)@
        }),
        offset == (if final(state)@.log_scroll <= scroll_limit(lines, height) {
            final(state)@.log_scroll
        } else {
            scroll_limit(lines, height)
        }),
{
    let visible: u16 = if height >= 2 {
        height - 2
    } else {
        0
    };
    let n: u16 = lines as u16;
    let max: u16 = if n >= visible {
        n - visible
    } else {
        0
    };
    state.log_scroll_max = max;
    if state.log_auto_scroll {
        state.log_scroll = max;
    }
    if state.log_scroll <= max {
        state.log_scroll
    } else {
        max
    }
}

/// An index kept within a list of `len` entries: the last entry where it
/// points past the end.
pub open spec fn within(i: usize, len: nat) -> usize {
    if len == 0 {
        0
    } else if i < len {
        i
    } else {
        (len - 1) as usize
    }
}

/// The index of a dropdown's highlighted entry: `i`, or the last entry if
/// `i` is past it.
pub fn safe_index(i: usize, len: usize) -> (r: usize)
    ensures
        r == within(i, len as nat),
{
    let last = if len > 0 {
        len - 1
    } else {
        0
    };
    if i <= last {
        i
    } else {
        last
    }
}

/// The selections after the configuration view is drawn: the plugin and
/// field selections point into their lists, and the list item or sub-field
/// selection of the pane shown points into its list when that list is not
/// empty. Nothing changes in the log view or when no plugin is registered.
pub open spec fn clamped(s: AppView, reg: Seq<(Seq<char>, Seq<FieldView>)>) -> AppView {
    if s.mode != AppMode::Config || reg.len() == 0 {
        s
    } else {
        let pi = within(s.selected_plugin_index, reg.len());
        let fields = reg[pi as int].1;
        let fi = if s.selected_field_index >= fields.len() {
            within(s.selected_field_index, fields.len())
        } else {
            s.selected_field_index
        };
        let s1 = AppView { selected_plugin_index: pi, selected_field_index: fi, ..s };
        if fi < fields.len() && s.config_pane == ConfigPane::ListManager {
            let n = fields[fi as int].list_items.len();
            if n > 0 && s.selected_list_item_index >= n {
                AppView { selected_list_item_index: (n - 1) as usize, ..s1 }
            } else {
                s1
            }
        } else if fi < fields.len() && s.config_pane == ConfigPane::ItemEditor {
            let n = fields[fi as int].item_schema.len();
            if n > 0 && s.item_edit_field_index >= n {
                AppView { item_edit_field_index: (n - 1) as usize, ..s1 }
            } else {
                s1
            }
        } else {
            s1
        }
    }
}

/// Keeps the configuration view's selections within their lists.
pub fn clamp_selection(state: &mut AppState, registry: &PluginRegistry)
    ensures
        final(state)@ == clamped(old(state)@, registry@),
{
    if state.mode != AppMode::Config || registry.len() == 0 {
        return;
    }
    let n = registry.len();
    if state.selected_plugin_index >= n {
        state.selected_plugin_index = n - 1;
    }
    let pi = state.selected_plugin_index;
    let nf = registry.schema_at(pi).fields.len();
    if state.selected_field_index >= nf {
        state.selected_field_index = if nf > 0 {
            nf - 1
        } else {
            0
        };
    }
    let fi = state.selected_field_index;
    if let Some(f) = registry.field_at(pi, fi) {
        if state.config_pane == ConfigPane::ListManager {
            let k = f.list_items.len();
            if k > 0 && state.selected_list_item_index >= k {
                state.selected_list_item_index = k - 1;
            }
        } else if state.config_pane == ConfigPane::ItemEditor {
            let k = f.item_schema.len();
            if k > 0 && state.item_edit_field_index >= k {
                state.item_edit_field_index = k - 1;
            }
        }
    }
}

/// The help line of the configuration view.
pub open spec fn config_help(s: AppView) -> Seq<char> {
    if s.item_dropdown_open {
        "Up/Down to scroll | Enter to confirm | Esc to cancel"@
    } else if s.item_subfield_editing {
        "Type value | Enter to confirm | Esc to cancel"@
    } else if s.config_pane == ConfigPane::ItemEditor {
        "Up/Down to select sub-field | Enter to edit | s=save  Esc=back"@
    } else if s.config_pane == ConfigPane::ListManager {
        "Up/Down to select item | Enter=edit | n=add | d=delete | Esc=back"@
    } else if s.is_dropdown_open {
        "Press 'Up/Down' to scroll | 'Enter' to confirm selection | 'Esc' to cancel"@
    } else if s.is_editing {
        "Type your value | Press 'Enter' to save | 'Esc' to cancel"@
    } else if s.config_pane == ConfigPane::PluginList {
        "Press 'Up/Down' to select plugin | 'Right' or 'Enter' to configure | 'l' for Logs | 'q' to quit"@
    } else {
        "Press 'Up/Down' to select field | 'Enter' to edit | 'Left' or 'Esc' for plugins | 'l' for Logs"@
    }
}

/// The help line of the configuration view for the state shown.
pub fn config_help_text(state: &AppState) -> (r: &'static str)
    ensures
        r@ == config_help(state@),
{
    if state.item_dropdown_open {
        "Up/Down to scroll | Enter to confirm | Esc to cancel"
    } else if state.item_subfield_editing {
        "Type value | Enter to confirm | Esc to cancel"
    } else if state.config_pane == ConfigPane::ItemEditor {
        "Up/Down to select sub-field | Enter to edit | s=save  Esc=back"
    } else if state.config_pane == ConfigPane::ListManager {
        "Up/Down to select item | Enter=edit | n=add | d=delete | Esc=back"
    } else if state.is_dropdown_open {
        "Press 'Up/Down' to scroll | 'Enter' to confirm selection | 'Esc' to cancel"
    } else if state.is_editing {
        "Type your value | Press 'Enter' to save | 'Esc' to cancel"
    } else if state.config_pane == ConfigPane::PluginList {
        "Press 'Up/Down' to select plugin | 'Right' or 'Enter' to configure | 'l' for Logs | 'q' to quit"
    } else {
        "Press 'Up/Down' to select field | 'Enter' to edit | 'Left' or 'Esc' for plugins | 'l' for Logs"
    }
}

/// The bottom line of the log view: the command line while typing, the
/// key help otherwise.
pub open spec fn controls_line(s: AppView) -> Seq<char> {
    if s.input_mode {
        "> "@ + s.input_buffer + "_"@
    } else {
        "Up/Down: scroll logs | 'q' quit | 'r' reload | 'u' re-cache | 'U' update | 'i' type | 'c' config"@
    }
}

/// The bottom line of the log view for the state shown.
pub fn controls_text(state: &AppState) -> (r: String)
    ensures
        r@ == controls_line(state@),
{
    if state.input_mode {
        let mut r = "> ".to_owned();
        r.append(state.input_buffer.as_str());
        r.append("_");
        r
    } else {
        "Up/Down: scroll logs | 'q' quit | 'r' reload | 'u' re-cache | 'U' update | 'i' type | 'c' config".to_owned()
    }
}

/// The position of the first entry whose id is `id`.
pub open spec fn first_with_id(s: Seq<(Seq<char>, Seq<char>)>, id: Seq<char>) -> Option<nat>
    decreases s.len(),
{
    if s.len() == 0 {
        None
    } else if s[0].0 == id {
        Some(0)
    } else {
        match first_with_id(s.drop_first(), id) {
            Some(i) => Some(i + 1),
            None => None,
        }
    }
}

/// The position of the first role whose id is `id`.
pub open spec fn first_role(s: Seq<RoleView>, id: Seq<char>) -> Option<nat>
    decreases s.len(),
{
    if s.len() == 0 {
        None
    } else if s[0].id == id {
        Some(0)
    } else {
        match first_role(s.drop_first(), id) {
            Some(i) => Some(i + 1),
            None => None,
        }
    }
}

/// A value as shown when it names nothing known: `(not set)` when empty.
pub open spec fn raw_shown(v: Seq<char>) -> Seq<char> {
    if v.len() == 0 {
        "(not set)"@
    } else {
        v
    }
}

/// A field's value as the field list shows it: a channel as `#name`, a
/// category by its name, a role as `@name` when the id is cached; an id
/// that is not cached, or an option, as it is (or `(not set)`); anything
/// else as it is.
pub open spec fn shown_value(t: ConfigType, v: Seq<char>, ds: DiscordView) -> Seq<char> {
    match t {
        ConfigType::Channel => match first_with_id(ds.channels, v) {
            Some(i) => "#"@ + ds.channels[i as int].1,
            None => raw_shown(v),
        },
        ConfigType::Category => match first_with_id(ds.categories, v) {
            Some(i) => ds.categories[i as int].1,
            None => raw_shown(v),
        },
        ConfigType::Role => match first_role(ds.roles, v) {
            Some(i) => "@"@ + ds.roles[i as int].name,
            None => raw_shown(v),
        },
        ConfigType::Enum => raw_shown(v),
        _ => v,
    }
}

/// The colour a role value is shown in: the cached role's colour, or none
/// (white) when the role is black or not cached.
pub open spec fn shown_role_color(v: Seq<char>, ds: DiscordView) -> Option<(u8, u8, u8)> {
    match first_role(ds.roles, v) {
        Some(i) => if ds.roles[i as int].color == (0u8, 0u8, 0u8) {
            None
        } else {
            Some(ds.roles[i as int].color)
        },
        None => None,
    }
}

fn find_id(s: &Vec<(String, String)>, id: &str) -> (r: Option<usize>)
    ensures
        match r {
            Some(i) => first_with_id(s.deep_view(), id@) == Some(i as nat) && i < s.len(),
            None => first_with_id(s.deep_view(), id@) is None,
        },
{
    let ghost sv = s.deep_view();
    let mut i: usize = 0;
    assert(sv.subrange(0, sv.len() as int) =~= sv);
    while i < s.len()
        invariant
            i <= s.len(),
            sv == s.deep_view(),
            first_with_id(sv, id@) == (match first_with_id(sv.subrange(i as int, sv.len() as int), id@) {
                Some(k) => Some((k + i) as nat),
                None => None::<nat>,
            }),
        decreases s.len() - i,
    {
        let ghost rest = sv.subrange(i as int, sv.len() as int);
        assert(rest[0] == sv[i as int]);
        assert(sv[i as int].0 == s@[i as int].0@);
        if same_text(s[i].0.as_str(), id) {
            return Some(i);
        }
        assert(rest.drop_first() =~= sv.subrange(i + 1, sv.len() as int));
        i = i + 1;
    }
    assert(sv.subrange(i as int, sv.len() as int) =~= Seq::<(Seq<char>, Seq<char>)>::empty());
    None
}

fn find_role(s: &Vec<DiscordRole>, id: &str) -> (r: Option<usize>)
    ensures
        match r {
            Some(i) => first_role(s.deep_view(), id@) == Some(i as nat) && i < s.len(),
            None => first_role(s.deep_view(), id@) is None,
        },
{
    let ghost sv = s.deep_view();
    let mut i: usize = 0;
    assert(sv.subrange(0, sv.len() as int) =~= sv);
    while i < s.len()
        invariant
            i <= s.len(),
            sv == s.deep_view(),
            first_role(sv, id@) == (match first_role(sv.subrange(i as int, sv.len() as int), id@) {
                Some(k) => Some((k + i) as nat),
                None => None::<nat>,
            }),
        decreases s.len() - i,
    {
        let ghost rest = sv.subrange(i as int, sv.len() as int);
        assert(rest[0] == sv[i as int]);
        assert(sv[i as int].id == s@[i as int].id@);
        if same_text(s[i].id.as_str(), id) {
            return Some(i);
        }
        assert(rest.drop_first() =~= sv.subrange(i + 1, sv.len() as int));
        i = i + 1;
    }
    assert(sv.subrange(i as int, sv.len() as int) =~= Seq::<RoleView>::empty());
    None
}

fn raw_text(v: &str) -> (r: String)
    ensures
        r@ == raw_shown(v@),
{
    if v.is_empty() {
        "(not set)".to_owned()
    } else {
        v.to_owned()
    }
}

/// A field's value as the field list shows it.
pub fn value_display(t: ConfigType, v: &str, ds: &DiscordState) -> (r: String)
    ensures
        r@ == shown_value(t, v@, ds@),
{
    match t {
        ConfigType::Channel => match find_id(&ds.channels, v) {
            Some(i) => {
                assert(ds@.channels[i as int].1 == ds.channels@[i as int].1@);
                concat("#", ds.channels[i].1.as_str())
            },
            None => raw_text(v),
        },
        ConfigType::Category => match find_id(&ds.categories, v) {
            Some(i) => {
                assert(ds@.categories[i as int].1 == ds.categories@[i as int].1@);
                ds.categories[i].1.clone()
            },
            None => raw_text(v),
        },
        ConfigType::Role => match find_role(&ds.roles, v) {
            Some(i) => {
                assert(ds@.roles[i as int].name == ds.roles@[i as int].name@);
                concat("@", ds.roles[i].name.as_str())
            },
            None => raw_text(v),
        },
        ConfigType::Enum => raw_text(v),
        _ => v.to_owned(),
    }
}

/// The colour a role value is shown in.
pub fn role_value_color(v: &str, ds: &DiscordState) -> (r: Option<(u8, u8, u8)>)
    ensures
        r == shown_role_color(v@, ds@),
{
    match find_role(&ds.roles, v) {
        Some(i) => {
            assert(ds@.roles[i as int].color == ds.roles@[i as int].color);
            let c = ds.roles[i].color;
            if c.0 == 0 && c.1 == 0 && c.2 == 0 {
                None
            } else {
                Some(c)
            }
        },
        None => None,
    }
}

/// An item of a list field summed up by its sub-fields, as `key=value`
/// separated by two spaces; a sub-field the item lacks shows as empty.
pub open spec fn item_summary_spec(schema: Seq<ItemSchemaView>, item: Map<Seq<char>, Seq<char>>) -> Seq<char>
    decreases schema.len(),
{
    if schema.len() == 0 {
        Seq::empty()
    } else {
        let prev = item_summary_spec(schema.drop_last(), item);
        let k = schema.last().key;
        let part = k + "="@ + (if item.contains_key(k) {
            item[k]
        } else {
            Seq::empty()
        });
        if schema.len() == 1 {
            part
        } else {
            prev + "  "@ + part
        }
    }
}

/// Sums up an item of a list field.
pub fn item_summary(schema: &Vec<ConfigItemSchema>, item: &StrMap) -> (r: String)
    ensures
        r@ == item_summary_spec(schema.deep_view(), item@),
{
    let ghost sv = schema.deep_view();
    let mut r = String::new();
    let mut i: usize = 0;
    proof {
        reveal_strlit("");
    }
    while i < schema.len()
        invariant
            i <= schema.len(),
            sv == schema.deep_view(),
            r@ == item_summary_spec(sv.subrange(0, i as int), item@),
        decreases schema.len() - i,
    {
        assert(sv[i as int] == schema@[i as int]@);
        assert(sv.subrange(0, i + 1).drop_last() =~= sv.subrange(0, i as int));
        if i > 0 {
            r.append("  ");
        }
        r.append(schema[i].key.as_str());
        r.append("=");
        match item.get(schema[i].key.as_str()) {
            Some(v) => r.append(v.as_str()),
            None => {},
        }
        proof {
            let k = sv[i as int].key;
            let tail = if item@.contains_key(k) { item@[k] } else { Seq::<char>::empty() };
            if i == 0 {
                assert(item_summary_spec(sv.subrange(0, 0), item@) =~= Seq::<char>::empty());
            }
            assert(r@ =~= item_summary_spec(sv.subrange(0, i + 1), item@));
        }
        i = i + 1;
    }
    assert(sv.subrange(0, i as int) =~= sv);
    r
}

/// The title of a dropdown listing values for a field of type `t`.
pub open spec fn dropdown_title_spec(t: ConfigType) -> Seq<char> {
    match t {
        ConfigType::Channel => " 📚 Select Channel "@,
        ConfigType::Category => " 📁 Select Category "@,
        ConfigType::Role => " 🎭 Select Role "@,
        ConfigType::Enum => " 📋 Select Option "@,
        _ => " Select "@,
    }
}

/// The title of a dropdown listing values for a field of type `t`.
pub fn dropdown_title(t: ConfigType) -> (r: &'static str)
    ensures
        r@ == dropdown_title_spec(t),
{
    match t {
        ConfigType::Channel => " 📚 Select Channel ",
        ConfigType::Category => " 📁 Select Category ",
        ConfigType::Role => " 🎭 Select Role ",
        ConfigType::Enum => " 📋 Select Option ",
        _ => " Select ",
    }
}

/// Entry `i` of a dropdown for a field of type `t`, highlighted or not:
/// the highlighted entry also shows the id.
pub open spec fn dropdown_line(t: ConfigType, options: Seq<Seq<char>>, ds: DiscordView, i: int, on: bool) -> Seq<char> {
    match t {
        ConfigType::Channel => if on {
            "> #"@ + ds.channels[i].1 + " ("@ + ds.channels[i].0 + ")"@
        } else {
            "  #"@ + ds.channels[i].1
        },
        ConfigType::Category => if on {
            "> 📁 "@ + ds.categories[i].1 + " ("@ + ds.categories[i].0 + ")"@
        } else {
            "  📁 "@ + ds.categories[i].1
        },
        ConfigType::Role => if on {
            "> @"@ + ds.roles[i].name + " ("@ + ds.roles[i].id + ")"@
        } else {
            "  @"@ + ds.roles[i].name
        },
        _ => if on {
            "> "@ + options[i]
        } else {
            "  "@ + options[i]
        },
    }
}

fn entry_line(t: ConfigType, options: &Vec<String>, ds: &DiscordState, i: usize, on: bool) -> (r: String)
    requires
        i < choices(t, options.deep_view(), ds@).len(),
        t == ConfigType::Channel || t == ConfigType::Category || t == ConfigType::Role || t == ConfigType::Enum,
    ensures
        r@ == dropdown_line(t, options.deep_view(), ds@, i as int, on),
{
    let (head, name, id): (&str, &str, &str) = match t {
        ConfigType::Channel => {
            assert(ds@.channels[i as int] == ds.channels@[i as int].deep_view());
            (if on { "> #" } else { "  #" }, ds.channels[i].1.as_str(), ds.channels[i].0.as_str())
        },
        ConfigType::Category => {
            assert(ds@.categories[i as int] == ds.categories@[i as int].deep_view());
            (if on { "> 📁 " } else { "  📁 " }, ds.categories[i].1.as_str(), ds.categories[i].0.as_str())
        },
        ConfigType::Role => {
            assert(ds@.roles[i as int] == ds.roles@[i as int]@);
            (if on { "> @" } else { "  @" }, ds.roles[i].name.as_str(), ds.roles[i].id.as_str())
        },
        _ => {
            assert(options.deep_view()[i as int] == options@[i as int]@);
            (if on { "> " } else { "  " }, options[i].as_str(), "")
        },
    };
    let mut r = concat(head, name);
    if on && t != ConfigType::Enum {
        r.append(" (");
        r.append(id);
        r.append(")");
    }
    r
}

/// The entries of a dropdown for a field of type `t` with entry `index`
/// highlighted (the last one where `index` is past the end).
pub fn dropdown_lines(t: ConfigType, options: &Vec<String>, ds: &DiscordState, index: usize) -> (r: Vec<String>)
    ensures
        r.deep_view().len() == choices(t, options.deep_view(), ds@).len(),
        forall|i: int| 0 <= i < r.deep_view().len() ==> #[trigger] r.deep_view()[i] == dropdown_line(
            t,
            options.deep_view(),
            ds@,
            i,
            i == within(index, choices(t, options.deep_view(), ds@).len()),
        ),
{
    let n = choice_count(t, options, ds);
    let on = safe_index(index, n);
    let mut r: Vec<String> = Vec::new();
    let mut i: usize = 0;
    while i < n
        invariant
            i <= n,
            n == choices(t, options.deep_view(), ds@).len(),
            on == within(index, n as nat),
            r.deep_view().len() == i,
            forall|j: int| 0 <= j < i ==> #[trigger] r.deep_view()[j] == dropdown_line(
                t,
                options.deep_view(),
                ds@,
                j,
                j == on,
            ),
        decreases n - i,
    {
        push_deep(&mut r, entry_line(t, options, ds, i, i == on));
        i = i + 1;
    }
    r
}

/// Law: once the configuration view is drawn with plugins registered, the
/// plugin and field selections point into their lists (the field selection
/// where the plugin has fields).
pub proof fn law_clamped_selection_in_range(s: AppView, reg: Seq<(Seq<char>, Seq<FieldView>)>)
    requires
        s.mode == AppMode::Config,
        reg.len() > 0,
    ensures
        clamped(s, reg).selected_plugin_index < reg.len(),
        reg[clamped(s, reg).selected_plugin_index as int].1.len() > 0 ==> clamped(s, reg).selected_field_index
            < reg[clamped(s, reg).selected_plugin_index as int].1.len(),
{
}

} // verus!
