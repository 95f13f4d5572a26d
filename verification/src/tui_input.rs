//! How the dashboard reacts to a key: the new dashboard state, the
//! configuration change made on the spot, whether to quit, and the command
//! to send to the bot.
use vstd::prelude::*;
use vstd::string::StringExecFns;
use crate::registry::{with_value, PluginRegistry};
use crate::text::{concat, pop_char, push_char};
use crate::tui_state::{AppMode, AppState, AppView, ConfigPane};
use crate::types::{
    AdminCommand, CommandView, ConfigType, DiscordState, DiscordView, FieldView, ItemSchemaView,
    LogLevel, RoleView,
};

verus! {

/// A key press, as far as the dashboard tells keys apart.
#[derive(Debug, Clone, Copy, PartialEq, Eq, Structural)]
pub enum Key {
    Char(char),
    Enter,
    Esc,
    Backspace,
    Up,
    Down,
    Left,
    Right,
    Other,
}

/// What handling a key asks of the caller: to quit, and a command for the bot.
#[derive(Debug)]
pub struct InputOutcome {
    pub quit: bool,
    pub command: Option<AdminCommand>,
}

/// The abstract content of an optional command.
pub open spec fn command_view(c: Option<AdminCommand>) -> Option<CommandView> {
    match c {
        Some(c) => Some(c@),
        None => None,
    }
}

/// The abstract result of handling a key.
#[verifier::ext_equal]
pub struct Reaction {
    pub state: AppView,
    pub registry: Seq<(Seq<char>, Seq<FieldView>)>,
    pub quit: bool,
    pub command: Option<CommandView>,
}

/// A reaction that changes the dashboard state only.
pub open spec fn only(s: AppView, reg: Seq<(Seq<char>, Seq<FieldView>)>) -> Reaction {
    Reaction { state: s, registry: reg, quit: false, command: None }
}

/// A reaction that also sends `c`.
pub open spec fn sending(s: AppView, reg: Seq<(Seq<char>, Seq<FieldView>)>, c: CommandView) -> Reaction {
    Reaction { state: s, registry: reg, quit: false, command: Some(c) }
}

/// No text box, dropdown or sub-field editor is open, so letters are hotkeys.
pub open spec fn hotkeys_live(s: AppView) -> bool {
    !s.is_editing && !s.is_dropdown_open && !s.item_subfield_editing && !s.item_dropdown_open
}

/// The configuration view is shown with pane `p` focused.
pub open spec fn in_pane(s: AppView, p: ConfigPane) -> bool {
    s.mode == AppMode::Config && s.config_pane == p
}

/// One step up a list, stopping at the top.
pub open spec fn step_up(i: usize) -> usize {
    if i == 0 {
        0
    } else {
        (i - 1) as usize
    }
}

/// One step down a list of `len` entries, stopping at the last.
pub open spec fn step_down(i: usize, len: nat) -> usize {
    if i + 1 < len {
        (i + 1) as usize
    } else {
        i
    }
}

/// The field selected in the configuration view.
pub open spec fn selected_field(reg: Seq<(Seq<char>, Seq<FieldView>)>, s: AppView) -> Option<FieldView> {
    if s.selected_plugin_index < reg.len() && s.selected_field_index
        < reg[s.selected_plugin_index as int].1.len() {
        Some(reg[s.selected_plugin_index as int].1[s.selected_field_index as int])
    } else {
        None
    }
}

/// The sub-field selected in the item editor.
pub open spec fn selected_sub(reg: Seq<(Seq<char>, Seq<FieldView>)>, s: AppView) -> Option<ItemSchemaView> {
    match selected_field(reg, s) {
        Some(f) => if s.item_edit_field_index < f.item_schema.len() {
            Some(f.item_schema[s.item_edit_field_index as int])
        } else {
            None
        },
        None => None,
    }
}

/// The values a dropdown offers for a field of type `t`: the ids of the
/// cached channels, categories or roles, or the field's own options.
pub open spec fn choices(t: ConfigType, options: Seq<Seq<char>>, ds: DiscordView) -> Seq<Seq<char>> {
    match t {
        ConfigType::Channel => ds.channels.map_values(|p: (Seq<char>, Seq<char>)| p.0),
        ConfigType::Category => ds.categories.map_values(|p: (Seq<char>, Seq<char>)| p.0),
        ConfigType::Role => ds.roles.map_values(|r: RoleView| r.id),
        ConfigType::Enum => options,
        _ => Seq::empty(),
    }
}

/// The dropdown entry at `i`, if there is one.
pub open spec fn choice(t: ConfigType, options: Seq<Seq<char>>, ds: DiscordView, i: usize) -> Option<
    Seq<char>,
> {
    if i < choices(t, options, ds).len() {
        Some(choices(t, options, ds)[i as int])
    } else {
        None
    }
}

/// Whether a field of type `t` is edited by picking from a dropdown.
pub open spec fn picked(t: ConfigType) -> bool {
    t == ConfigType::Channel || t == ConfigType::Role || t == ConfigType::Category || t
        == ConfigType::Enum
}

/// The registry with the value of field `fi` of plugin `pi` set to `v`.
pub open spec fn set_field_value(
    reg: Seq<(Seq<char>, Seq<FieldView>)>,
    pi: usize,
    fi: usize,
    v: Seq<char>,
) -> Seq<(Seq<char>, Seq<FieldView>)> {
    reg.update(pi as int, (reg[pi as int].0, reg[pi as int].1.update(fi as int, with_value(reg[pi as int].1[fi as int], v))))
}

/// The value a boolean toggles to.
pub open spec fn toggled(current: Seq<char>) -> Seq<char> {
    if current == "true"@ {
        "false"@
    } else {
        "true"@
    }
}

/// Typing on the log view's command line.
pub open spec fn react_typing(key: Key, s: AppView, reg: Seq<(Seq<char>, Seq<FieldView>)>) -> Reaction {
    match key {
        Key::Enter => only(
            AppView {
                logs: s.logs.push((LogLevel::Info, "You typed: "@ + s.input_buffer)),
                input_buffer: Seq::empty(),
                input_mode: false,
                ..s
            },
            reg,
        ),
        Key::Char(c) => only(AppView { input_buffer: s.input_buffer.push(c), ..s }, reg),
        Key::Backspace => only(AppView { input_buffer: drop_one(s.input_buffer), ..s }, reg),
        Key::Esc => only(AppView { input_mode: false, ..s }, reg),
        _ => only(s, reg),
    }
}

/// A text without its last character, if it has one.
pub open spec fn drop_one(t: Seq<char>) -> Seq<char> {
    if t.len() > 0 {
        t.drop_last()
    } else {
        t
    }
}

/// A character key outside the command line.
pub open spec fn react_char(
    c: char,
    s: AppView,
    reg: Seq<(Seq<char>, Seq<FieldView>)>,
) -> Reaction {
    if c == 'q' && hotkeys_live(s) {
        Reaction { state: s, registry: reg, quit: true, command: Some(CommandView::Shutdown) }
    } else if c == 'r' && hotkeys_live(s) {
        sending(s, reg, CommandView::Reload)
    } else if c == 'u' && hotkeys_live(s) {
        sending(s, reg, CommandView::RefreshCache)
    } else if c == 'U' && hotkeys_live(s) {
        sending(s, reg, CommandView::CheckUpdate)
    } else if c == 'i' && hotkeys_live(s) {
        if s.mode == AppMode::Logs {
            only(AppView { input_mode: true, ..s }, reg)
        } else {
            only(s, reg)
        }
    } else if c == 'c' && hotkeys_live(s) {
        only(AppView { mode: AppMode::Config, ..s }, reg)
    } else if c == 'l' && hotkeys_live(s) {
        only(AppView { mode: AppMode::Logs, ..s }, reg)
    } else if c == 'n' && in_pane(s, ConfigPane::ListManager) {
        only(
            AppView {
                item_edit_buffer: Map::empty(),
                item_edit_field_index: 0,
                item_editing_index: None,
                item_subfield_editing: false,
                item_dropdown_open: false,
                config_pane: ConfigPane::ItemEditor,
                ..s
            },
            reg,
        )
    } else if c == 'd' && in_pane(s, ConfigPane::ListManager) {
        match selected_field(reg, s) {
            Some(f) => sending(
                AppView { selected_list_item_index: step_up(s.selected_list_item_index), ..s },
                reg,
                CommandView::DeleteListItem {
                    plugin: reg[s.selected_plugin_index as int].0,
                    key: f.key,
                    index: s.selected_list_item_index as nat,
                },
            ),
            None => only(s, reg),
        }
    } else if in_pane(s, ConfigPane::ItemEditor) && s.item_subfield_editing {
        only(AppView { item_subfield_buffer: s.item_subfield_buffer.push(c), ..s }, reg)
    } else if c == 's' && in_pane(s, ConfigPane::ItemEditor) {
        let after = AppView {
            item_edit_buffer: Map::empty(),
            item_editing_index: None,
            config_pane: ConfigPane::ListManager,
            ..s
        };
        match selected_field(reg, s) {
            Some(f) => sending(
                after,
                reg,
                match s.item_editing_index {
                    None => CommandView::AppendListItem {
                        plugin: reg[s.selected_plugin_index as int].0,
                        key: f.key,
                        item: s.item_edit_buffer,
                    },
                    Some(i) => CommandView::UpdateListItem {
                        plugin: reg[s.selected_plugin_index as int].0,
                        key: f.key,
                        index: i as nat,
                        item: s.item_edit_buffer,
                    },
                },
            ),
            None => only(after, reg),
        }
    } else if s.is_editing {
        only(AppView { edit_buffer: s.edit_buffer.push(c), ..s }, reg)
    } else {
        only(s, reg)
    }
}

/// The arrow key up.
pub open spec fn react_up(s: AppView, reg: Seq<(Seq<char>, Seq<FieldView>)>) -> Reaction {
    if s.mode == AppMode::Logs {
        only(
            AppView {
                log_auto_scroll: false,
                log_scroll: if s.log_scroll == 0 {
                    0
                } else {
                    (s.log_scroll - 1) as u16
                },
                ..s
            },
            reg,
        )
    } else if s.is_dropdown_open {
        only(AppView { dropdown_selected_index: step_up(s.dropdown_selected_index), ..s }, reg)
    } else if in_pane(s, ConfigPane::PluginList) {
        only(AppView { selected_plugin_index: step_up(s.selected_plugin_index), ..s }, reg)
    } else if in_pane(s, ConfigPane::FieldList) && !s.is_editing {
        only(AppView { selected_field_index: step_up(s.selected_field_index), ..s }, reg)
    } else if in_pane(s, ConfigPane::ListManager) {
        only(AppView { selected_list_item_index: step_up(s.selected_list_item_index), ..s }, reg)
    } else if in_pane(s, ConfigPane::ItemEditor) && !s.item_subfield_editing
        && !s.item_dropdown_open {
        only(AppView { item_edit_field_index: step_up(s.item_edit_field_index), ..s }, reg)
    } else if in_pane(s, ConfigPane::ItemEditor) && s.item_dropdown_open {
        only(AppView { item_dropdown_index: step_up(s.item_dropdown_index), ..s }, reg)
    } else {
        only(s, reg)
    }
}

/// The number of entries in the field dropdown.
pub open spec fn field_choice_count(reg: Seq<(Seq<char>, Seq<FieldView>)>, s: AppView, ds: DiscordView) -> nat {
    match selected_field(reg, s) {
        Some(f) => choices(f.field_type, f.enum_options, ds).len(),
        None => 0,
    }
}

/// The number of entries in the item editor's dropdown.
pub open spec fn sub_choice_count(reg: Seq<(Seq<char>, Seq<FieldView>)>, s: AppView, ds: DiscordView) -> nat {
    match selected_sub(reg, s) {
        Some(sf) => choices(sf.field_type, sf.enum_options, ds).len(),
        None => 0,
    }
}

/// The arrow key down.
pub open spec fn react_down(s: AppView, reg: Seq<(Seq<char>, Seq<FieldView>)>, ds: DiscordView) -> Reaction {
    if s.mode == AppMode::Logs {
        let next: u16 = if s.log_scroll + 1 < s.log_scroll_max {
            (s.log_scroll + 1) as u16
        } else {
            s.log_scroll_max
        };
        only(
            AppView {
                log_scroll: next,
                log_auto_scroll: if next >= s.log_scroll_max {
                    true
                } else {
                    s.log_auto_scroll
                },
                ..s
            },
            reg,
        )
    } else if s.is_dropdown_open {
        only(
            AppView {
                dropdown_selected_index: step_down(
                    s.dropdown_selected_index,
                    field_choice_count(reg, s, ds),
                ),
                ..s
            },
            reg,
        )
    } else if in_pane(s, ConfigPane::PluginList) {
        only(AppView { selected_plugin_index: step_down(s.selected_plugin_index, reg.len()), ..s }, reg)
    } else if in_pane(s, ConfigPane::FieldList) && !s.is_editing {
        if s.selected_plugin_index < reg.len() {
            only(
                AppView {
                    selected_field_index: step_down(
                        s.selected_field_index,
                        reg[s.selected_plugin_index as int].1.len(),
                    ),
                    ..s
                },
                reg,
            )
        } else {
            only(s, reg)
        }
    } else if in_pane(s, ConfigPane::ListManager) {
        match selected_field(reg, s) {
            Some(f) => only(
                AppView {
                    selected_list_item_index: step_down(s.selected_list_item_index, f.list_items.len()),
                    ..s
                },
                reg,
            ),
            None => only(s, reg),
        }
    } else if in_pane(s, ConfigPane::ItemEditor) && !s.item_subfield_editing
        && !s.item_dropdown_open {
        match selected_field(reg, s) {
            Some(f) => only(
                AppView {
                    item_edit_field_index: step_down(s.item_edit_field_index, f.item_schema.len()),
                    ..s
                },
                reg,
            ),
            None => only(s, reg),
        }
    } else if in_pane(s, ConfigPane::ItemEditor) && s.item_dropdown_open {
        only(
            AppView {
                item_dropdown_index: step_down(s.item_dropdown_index, sub_choice_count(reg, s, ds)),
                ..s
            },
            reg,
        )
    } else {
        only(s, reg)
    }
}

/// The escape key outside the command line.
pub open spec fn react_esc(s: AppView, reg: Seq<(Seq<char>, Seq<FieldView>)>) -> Reaction {
    if s.is_dropdown_open {
        only(AppView { is_dropdown_open: false, ..s }, reg)
    } else if in_pane(s, ConfigPane::FieldList) && !s.is_editing {
        only(AppView { config_pane: ConfigPane::PluginList, ..s }, reg)
    } else if in_pane(s, ConfigPane::ListManager) {
        only(AppView { config_pane: ConfigPane::FieldList, ..s }, reg)
    } else if in_pane(s, ConfigPane::ItemEditor) && !s.item_subfield_editing
        && !s.item_dropdown_open {
        only(
            AppView {
                config_pane: ConfigPane::ListManager,
                item_edit_buffer: Map::empty(),
                item_editing_index: None,
                ..s
            },
            reg,
        )
    } else if in_pane(s, ConfigPane::ItemEditor) && s.item_dropdown_open {
        only(AppView { item_dropdown_open: false, ..s }, reg)
    } else if in_pane(s, ConfigPane::ItemEditor) && s.item_subfield_editing {
        only(AppView { item_subfield_editing: false, item_subfield_buffer: Seq::empty(), ..s }, reg)
    } else if s.is_editing {
        only(AppView { is_editing: false, edit_buffer: Seq::empty(), ..s }, reg)
    } else {
        only(s, reg)
    }
}

/// The arrow key left.
pub open spec fn react_left(s: AppView, reg: Seq<(Seq<char>, Seq<FieldView>)>) -> Reaction {
    if in_pane(s, ConfigPane::FieldList) && !s.is_editing && !s.is_dropdown_open {
        only(AppView { config_pane: ConfigPane::PluginList, ..s }, reg)
    } else if in_pane(s, ConfigPane::ListManager) {
        only(AppView { config_pane: ConfigPane::FieldList, ..s }, reg)
    } else {
        only(s, reg)
    }
}

/// The arrow key right.
pub open spec fn react_right(s: AppView, reg: Seq<(Seq<char>, Seq<FieldView>)>) -> Reaction {
    if in_pane(s, ConfigPane::PluginList) && !s.is_dropdown_open {
        only(AppView { config_pane: ConfigPane::FieldList, selected_field_index: 0, ..s }, reg)
    } else {
        only(s, reg)
    }
}

/// The backspace key outside the command line.
pub open spec fn react_backspace(s: AppView, reg: Seq<(Seq<char>, Seq<FieldView>)>) -> Reaction {
    if in_pane(s, ConfigPane::ItemEditor) && s.item_subfield_editing {
        only(AppView { item_subfield_buffer: drop_one(s.item_subfield_buffer), ..s }, reg)
    } else if s.is_editing {
        only(AppView { edit_buffer: drop_one(s.edit_buffer), ..s }, reg)
    } else {
        only(s, reg)
    }
}

/// Enter in the item editor while its dropdown is open: the picked value
/// goes into the item.
pub open spec fn react_enter_item_pick(s: AppView, reg: Seq<(Seq<char>, Seq<FieldView>)>, ds: DiscordView) -> Reaction {
    let buffer = match selected_sub(reg, s) {
        Some(sf) => match choice(sf.field_type, sf.enum_options, ds, s.item_dropdown_index) {
            Some(id) => s.item_edit_buffer.insert(sf.key, id),
            None => s.item_edit_buffer,
        },
        None => s.item_edit_buffer,
    };
    only(AppView { item_edit_buffer: buffer, item_dropdown_open: false, ..s }, reg)
}

/// Enter in the item editor on a sub-field: open its dropdown, toggle it, or
/// start typing its value.
pub open spec fn react_enter_item_open(s: AppView, reg: Seq<(Seq<char>, Seq<FieldView>)>) -> Reaction {
    match selected_sub(reg, s) {
        Some(sf) => if picked(sf.field_type) {
            only(AppView { item_dropdown_open: true, item_dropdown_index: 0, ..s }, reg)
        } else if sf.field_type == ConfigType::Boolean {
            let current = if s.item_edit_buffer.contains_key(sf.key) {
                s.item_edit_buffer[sf.key]
            } else {
                "false"@
            };
            only(AppView { item_edit_buffer: s.item_edit_buffer.insert(sf.key, toggled(current)), ..s }, reg)
        } else {
            only(
                AppView {
                    item_subfield_buffer: if s.item_edit_buffer.contains_key(sf.key) {
                        s.item_edit_buffer[sf.key]
                    } else {
                        Seq::empty()
                    },
                    item_subfield_editing: true,
                    ..s
                },
                reg,
            )
        },
        None => only(s, reg),
    }
}

/// Enter on the field list: save the dropdown's pick or the text typed, or
/// open the editor that suits the field.
pub open spec fn react_enter_field(s: AppView, reg: Seq<(Seq<char>, Seq<FieldView>)>, ds: DiscordView) -> Reaction {
    let pi = s.selected_plugin_index;
    let fi = s.selected_field_index;
    if s.is_dropdown_open {
        let after = AppView { is_dropdown_open: false, ..s };
        match selected_field(reg, s) {
            Some(f) => match choice(f.field_type, f.enum_options, ds, s.dropdown_selected_index) {
                Some(id) => sending(
                    after,
                    set_field_value(reg, pi, fi, id),
                    CommandView::SaveConfig { plugin: reg[pi as int].0, key: f.key, value: id },
                ),
                None => only(after, reg),
            },
            None => only(after, reg),
        }
    } else if s.is_editing {
        let after = AppView { is_editing: false, edit_buffer: Seq::empty(), ..s };
        match selected_field(reg, s) {
            Some(f) => sending(
                after,
                set_field_value(reg, pi, fi, s.edit_buffer),
                CommandView::SaveConfig { plugin: reg[pi as int].0, key: f.key, value: s.edit_buffer },
            ),
            None => only(after, reg),
        }
    } else {
        match selected_field(reg, s) {
            Some(f) => if f.field_type == ConfigType::List {
                only(AppView { config_pane: ConfigPane::ListManager, selected_list_item_index: 0, ..s }, reg)
            } else if picked(f.field_type) {
                only(AppView { is_dropdown_open: true, dropdown_selected_index: 0, ..s }, reg)
            } else if f.field_type == ConfigType::Boolean {
                sending(
                    s,
                    set_field_value(reg, pi, fi, toggled(f.default_value)),
                    CommandView::SaveConfig {
                        plugin: reg[pi as int].0,
                        key: f.key,
                        value: toggled(f.default_value),
                    },
                )
            } else {
                only(AppView { is_editing: true, edit_buffer: f.default_value, ..s }, reg)
            },
            None => only(s, reg),
        }
    }
}

/// The enter key outside the command line.
pub open spec fn react_enter(s: AppView, reg: Seq<(Seq<char>, Seq<FieldView>)>, ds: DiscordView) -> Reaction {
    if in_pane(s, ConfigPane::PluginList) && !s.is_dropdown_open {
        only(AppView { config_pane: ConfigPane::FieldList, selected_field_index: 0, ..s }, reg)
    } else if in_pane(s, ConfigPane::ListManager) {
        match selected_field(reg, s) {
            Some(f) => if s.selected_list_item_index < f.list_items.len() {
                only(
                    AppView {
                        item_edit_buffer: f.list_items[s.selected_list_item_index as int],
                        item_edit_field_index: 0,
                        item_editing_index: Some(s.selected_list_item_index),
                        item_subfield_editing: false,
                        item_dropdown_open: false,
                        config_pane: ConfigPane::ItemEditor,
                        ..s
                    },
                    reg,
                )
            } else {
                only(s, reg)
            },
            None => only(s, reg),
        }
    } else if in_pane(s, ConfigPane::ItemEditor) && s.item_dropdown_open {
        react_enter_item_pick(s, reg, ds)
    } else if in_pane(s, ConfigPane::ItemEditor) && s.item_subfield_editing {
        let buffer = match selected_sub(reg, s) {
            Some(sf) => s.item_edit_buffer.insert(sf.key, s.item_subfield_buffer),
            None => s.item_edit_buffer,
        };
        only(
            AppView {
                item_edit_buffer: buffer,
                item_subfield_editing: false,
                item_subfield_buffer: Seq::empty(),
                ..s
            },
            reg,
        )
    } else if in_pane(s, ConfigPane::ItemEditor) {
        react_enter_item_open(s, reg)
    } else if in_pane(s, ConfigPane::FieldList) {
        react_enter_field(s, reg, ds)
    } else {
        only(s, reg)
    }
}

/// How the dashboard reacts to `key`.
pub open spec fn reaction(key: Key, s: AppView, reg: Seq<(Seq<char>, Seq<FieldView>)>, ds: DiscordView) -> Reaction {
    if s.input_mode {
        react_typing(key, s, reg)
    } else {
        match key {
            Key::Char(c) => react_char(c, s, reg),
            Key::Enter => react_enter(s, reg, ds),
            Key::Esc => react_esc(s, reg),
            Key::Backspace => react_backspace(s, reg),
            Key::Up => react_up(s, reg),
            Key::Down => react_down(s, reg, ds),
            Key::Left => react_left(s, reg),
            Key::Right => react_right(s, reg),
            Key::Other => only(s, reg),
        }
    }
}

/// The one input the dashboard cannot take: scrolling down the log view
/// when the scroll position is already at its largest value.
pub open spec fn scroll_overflows(key: Key, s: AppView) -> bool {
    !s.input_mode && key == Key::Down && s.mode == AppMode::Logs && s.log_scroll == u16::MAX
}

/// The abstract reaction a call reports.
pub open spec fn outcome(s: AppView, reg: Seq<(Seq<char>, Seq<FieldView>)>, r: InputOutcome) -> Reaction {
    Reaction { state: s, registry: reg, quit: r.quit, command: command_view(r.command) }
}

fn nothing() -> (r: InputOutcome)
    ensures
        !r.quit,
        r.command is None,
{
    InputOutcome { quit: false, command: None }
}

fn send(c: AdminCommand) -> (r: InputOutcome)
    ensures
        !r.quit,
        r.command == Some(c),
{
    InputOutcome { quit: false, command: Some(c) }
}

fn up_one(i: usize) -> (r: usize)
    ensures
        r == step_up(i),
{
    if i > 0 {
        i - 1
    } else {
        0
    }
}

fn down_one(i: usize, len: usize) -> (r: usize)
    ensures
        r == step_down(i, len as nat),
{
    let max = if len > 0 {
        len - 1
    } else {
        0
    };
    if i < max {
        i + 1
    } else {
        i
    }
}

/// The number of entries the dropdown of a field of type `t` offers.
pub fn choice_count(t: ConfigType, options: &Vec<String>, ds: &DiscordState) -> (n: usize)
    ensures
        n == choices(t, options.deep_view(), ds@).len(),
{
    match t {
        ConfigType::Channel => ds.channels.len(),
        ConfigType::Category => ds.categories.len(),
        ConfigType::Role => ds.roles.len(),
        ConfigType::Enum => options.len(),
        _ => 0,
    }
}

/// The dropdown entry at `i` for a field of type `t`, if there is one.
pub fn choice_at(t: ConfigType, options: &Vec<String>, ds: &DiscordState, i: usize) -> (r: Option<String>)
    ensures
        match r {
            Some(v) => choice(t, options.deep_view(), ds@, i) == Some(v@),
            None => choice(t, options.deep_view(), ds@, i) is None,
        },
{
    match t {
        ConfigType::Channel => if i < ds.channels.len() {
            assert(ds@.channels[i as int].0 == ds.channels@[i as int].0@);
            Some(ds.channels[i].0.clone())
        } else {
            None
        },
        ConfigType::Category => if i < ds.categories.len() {
            assert(ds@.categories[i as int].0 == ds.categories@[i as int].0@);
            Some(ds.categories[i].0.clone())
        } else {
            None
        },
        ConfigType::Role => if i < ds.roles.len() {
            assert(ds@.roles[i as int].id == ds.roles@[i as int].id@);
            Some(ds.roles[i].id.clone())
        } else {
            None
        },
        ConfigType::Enum => if i < options.len() {
            assert(options.deep_view()[i as int] == options@[i as int]@);
            Some(options[i].clone())
        } else {
            None
        },
        _ => None,
    }
}

fn on_typing(key: Key, state: &mut AppState, registry: &PluginRegistry) -> (r: InputOutcome)
    ensures
        react_typing(key, old(state)@, registry@) == outcome(final(state)@, registry@, r),
{
    match key {
        Key::Enter => {
            let line = concat("You typed: ", state.input_buffer.as_str());
            state.push_log(LogLevel::Info, line);
            state.input_buffer = String::new();
            state.input_mode = false;
        },
        Key::Char(c) => push_char(&mut state.input_buffer, c),
        Key::Backspace => pop_char(&mut state.input_buffer),
        Key::Esc => state.input_mode = false,
        _ => {},
    }
    nothing()
}

fn on_char(c: char, state: &mut AppState, registry: &PluginRegistry) -> (r: InputOutcome)
    requires
        !old(state)@.input_mode,
    ensures
        react_char(c, old(state)@, registry@) == outcome(final(state)@, registry@, r),
{
    let live = !state.is_editing && !state.is_dropdown_open && !state.item_subfield_editing
        && !state.item_dropdown_open;
    let in_config = state.mode == AppMode::Config;
    if c == 'q' && live {
        InputOutcome { quit: true, command: Some(AdminCommand::Shutdown) }
    } else if c == 'r' && live {
        send(AdminCommand::Reload)
    } else if c == 'u' && live {
        send(AdminCommand::RefreshCache)
    } else if c == 'U' && live {
        send(AdminCommand::CheckUpdate)
    } else if c == 'i' && live {
        if state.mode == AppMode::Logs {
            state.input_mode = true;
        }
        nothing()
    } else if c == 'c' && live {
        state.mode = AppMode::Config;
        nothing()
    } else if c == 'l' && live {
        state.mode = AppMode::Logs;
        nothing()
    } else if c == 'n' && in_config && state.config_pane == ConfigPane::ListManager {
        state.item_edit_buffer.clear();
        state.item_edit_field_index = 0;
        state.item_editing_index = None;
        state.item_subfield_editing = false;
        state.item_dropdown_open = false;
        state.config_pane = ConfigPane::ItemEditor;
        nothing()
    } else if c == 'd' && in_config && state.config_pane == ConfigPane::ListManager {
        match registry.field_at(state.selected_plugin_index, state.selected_field_index) {
            Some(f) => {
                let plugin = registry.name_at(state.selected_plugin_index).clone();
                let key = f.key.clone();
                let index = state.selected_list_item_index;
                state.selected_list_item_index = up_one(index);
                send(AdminCommand::DeleteListItem { plugin, key, index })
            },
            None => nothing(),
        }
    } else if in_config && state.config_pane == ConfigPane::ItemEditor
        && state.item_subfield_editing {
        push_char(&mut state.item_subfield_buffer, c);
        nothing()
    } else if c == 's' && in_config && state.config_pane == ConfigPane::ItemEditor {
        let command = match registry.field_at(state.selected_plugin_index, state.selected_field_index) {
            Some(f) => {
                let plugin = registry.name_at(state.selected_plugin_index).clone();
                let key = f.key.clone();
                let item = state.item_edit_buffer.duplicate();
                match state.item_editing_index {
                    None => Some(AdminCommand::AppendListItem { plugin, key, item }),
                    Some(i) => Some(AdminCommand::UpdateListItem { plugin, key, index: i, item }),
                }
            },
            None => None,
        };
        state.item_edit_buffer.clear();
        state.item_editing_index = None;
        state.config_pane = ConfigPane::ListManager;
        InputOutcome { quit: false, command }
    } else if state.is_editing {
        push_char(&mut state.edit_buffer, c);
        nothing()
    } else {
        nothing()
    }
}

fn on_up(state: &mut AppState, registry: &PluginRegistry) -> (r: InputOutcome)
    ensures
        react_up(old(state)@, registry@) == outcome(final(state)@, registry@, r),
{
    let in_config = state.mode == AppMode::Config;
    if state.mode == AppMode::Logs {
        state.log_auto_scroll = false;
        state.log_scroll = if state.log_scroll > 0 {
            state.log_scroll - 1
        } else {
            0
        };
    } else if state.is_dropdown_open {
        state.dropdown_selected_index = up_one(state.dropdown_selected_index);
    } else if in_config && state.config_pane == ConfigPane::PluginList {
        state.selected_plugin_index = up_one(state.selected_plugin_index);
    } else if in_config && state.config_pane == ConfigPane::FieldList && !state.is_editing {
        state.selected_field_index = up_one(state.selected_field_index);
    } else if in_config && state.config_pane == ConfigPane::ListManager {
        state.selected_list_item_index = up_one(state.selected_list_item_index);
    } else if in_config && state.config_pane == ConfigPane::ItemEditor
        && !state.item_subfield_editing && !state.item_dropdown_open {
        state.item_edit_field_index = up_one(state.item_edit_field_index);
    } else if in_config && state.config_pane == ConfigPane::ItemEditor
        && state.item_dropdown_open {
        state.item_dropdown_index = up_one(state.item_dropdown_index);
    }
    nothing()
}

fn on_down(state: &mut AppState, registry: &PluginRegistry, ds: &DiscordState) -> (r: InputOutcome)
    requires
        !scroll_overflows(Key::Down, old(state)@),
        !old(state)@.input_mode,
    ensures
        react_down(old(state)@, registry@, ds@) == outcome(final(state)@, registry@, r),
{
    let in_config = state.mode == AppMode::Config;
    let pi = state.selected_plugin_index;
    let fi = state.selected_field_index;
    if state.mode == AppMode::Logs {
        let up = state.log_scroll + 1;
        state.log_scroll = if up < state.log_scroll_max {
            up
        } else {
            state.log_scroll_max
        };
        if state.log_scroll >= state.log_scroll_max {
            state.log_auto_scroll = true;
        }
    } else if state.is_dropdown_open {
        let n = match registry.field_at(pi, fi) {
            Some(f) => choice_count(f.field_type, &f.enum_options, ds),
            None => 0,
        };
        state.dropdown_selected_index = down_one(state.dropdown_selected_index, n);
    } else if in_config && state.config_pane == ConfigPane::PluginList {
        state.selected_plugin_index = down_one(pi, registry.len());
    } else if in_config && state.config_pane == ConfigPane::FieldList && !state.is_editing {
        if pi < registry.len() {
            let n = registry.schema_at(pi).fields.len();
            state.selected_field_index = down_one(fi, n);
        }
    } else if in_config && state.config_pane == ConfigPane::ListManager {
        if let Some(f) = registry.field_at(pi, fi) {
            state.selected_list_item_index = down_one(state.selected_list_item_index, f.list_items.len());
        }
    } else if in_config && state.config_pane == ConfigPane::ItemEditor
        && !state.item_subfield_editing && !state.item_dropdown_open {
        if let Some(f) = registry.field_at(pi, fi) {
            state.item_edit_field_index = down_one(state.item_edit_field_index, f.item_schema.len());
        }
    } else if in_config && state.config_pane == ConfigPane::ItemEditor
        && state.item_dropdown_open {
        let k = state.item_edit_field_index;
        let n = match registry.field_at(pi, fi) {
            Some(f) => if k < f.item_schema.len() {
                assert(f@.item_schema[k as int] == f.item_schema@[k as int]@);
                choice_count(f.item_schema[k].field_type, &f.item_schema[k].enum_options, ds)
            } else {
                0
            },
            None => 0,
        };
        state.item_dropdown_index = down_one(state.item_dropdown_index, n);
    }
    nothing()
}

fn on_esc(state: &mut AppState, registry: &PluginRegistry) -> (r: InputOutcome)
    ensures
        react_esc(old(state)@, registry@) == outcome(final(state)@, registry@, r),
{
    let in_config = state.mode == AppMode::Config;
    if state.is_dropdown_open {
        state.is_dropdown_open = false;
    } else if in_config && state.config_pane == ConfigPane::FieldList && !state.is_editing {
        state.config_pane = ConfigPane::PluginList;
    } else if in_config && state.config_pane == ConfigPane::ListManager {
        state.config_pane = ConfigPane::FieldList;
    } else if in_config && state.config_pane == ConfigPane::ItemEditor
        && !state.item_subfield_editing && !state.item_dropdown_open {
        state.config_pane = ConfigPane::ListManager;
        state.item_edit_buffer.clear();
        state.item_editing_index = None;
    } else if in_config && state.config_pane == ConfigPane::ItemEditor
        && state.item_dropdown_open {
        state.item_dropdown_open = false;
    } else if in_config && state.config_pane == ConfigPane::ItemEditor
        && state.item_subfield_editing {
        state.item_subfield_editing = false;
        state.item_subfield_buffer = String::new();
    } else if state.is_editing {
        state.is_editing = false;
        state.edit_buffer = String::new();
    }
    nothing()
}

fn on_left(state: &mut AppState, registry: &PluginRegistry) -> (r: InputOutcome)
    ensures
        react_left(old(state)@, registry@) == outcome(final(state)@, registry@, r),
{
    let in_config = state.mode == AppMode::Config;
    if in_config && state.config_pane == ConfigPane::FieldList && !state.is_editing
        && !state.is_dropdown_open {
        state.config_pane = ConfigPane::PluginList;
    } else if in_config && state.config_pane == ConfigPane::ListManager {
        state.config_pane = ConfigPane::FieldList;
    }
    nothing()
}

fn on_right(state: &mut AppState, registry: &PluginRegistry) -> (r: InputOutcome)
    ensures
        react_right(old(state)@, registry@) == outcome(final(state)@, registry@, r),
{
    if state.mode == AppMode::Config && state.config_pane == ConfigPane::PluginList
        && !state.is_dropdown_open {
        state.config_pane = ConfigPane::FieldList;
        state.selected_field_index = 0;
    }
    nothing()
}

fn on_backspace(state: &mut AppState, registry: &PluginRegistry) -> (r: InputOutcome)
    ensures
        react_backspace(old(state)@, registry@) == outcome(final(state)@, registry@, r),
{
    if state.mode == AppMode::Config && state.config_pane == ConfigPane::ItemEditor
        && state.item_subfield_editing {
        pop_char(&mut state.item_subfield_buffer);
    } else if state.is_editing {
        pop_char(&mut state.edit_buffer);
    }
    nothing()
}

fn on_enter_item_pick(state: &mut AppState, registry: &PluginRegistry, ds: &DiscordState) -> (r: InputOutcome)
    ensures
        react_enter_item_pick(old(state)@, registry@, ds@) == outcome(final(state)@, registry@, r),
{
    let k = state.item_edit_field_index;
    if let Some(f) = registry.field_at(state.selected_plugin_index, state.selected_field_index) {
        if k < f.item_schema.len() {
            let sf = &f.item_schema[k];
            assert(f@.item_schema[k as int] == sf@);
            if let Some(id) = choice_at(sf.field_type, &sf.enum_options, ds, state.item_dropdown_index) {
                state.item_edit_buffer.insert(sf.key.clone(), id);
            }
        }
    }
    state.item_dropdown_open = false;
    nothing()
}

fn on_enter_item_open(state: &mut AppState, registry: &PluginRegistry) -> (r: InputOutcome)
    ensures
        react_enter_item_open(old(state)@, registry@) == outcome(final(state)@, registry@, r),
{
    let k = state.item_edit_field_index;
    if let Some(f) = registry.field_at(state.selected_plugin_index, state.selected_field_index) {
        if k < f.item_schema.len() {
            let sf = &f.item_schema[k];
            assert(f@.item_schema[k as int] == sf@);
            let t = sf.field_type;
            if t == ConfigType::Channel || t == ConfigType::Role || t == ConfigType::Category || t
                == ConfigType::Enum {
                state.item_dropdown_open = true;
                state.item_dropdown_index = 0;
            } else if t == ConfigType::Boolean {
                let current = match state.item_edit_buffer.get(sf.key.as_str()) {
                    Some(v) => v.clone(),
                    None => "false".to_owned(),
                };
                let next = if current == "true".to_owned() {
                    "false".to_owned()
                } else {
                    "true".to_owned()
                };
                state.item_edit_buffer.insert(sf.key.clone(), next);
            } else {
                state.item_subfield_buffer = match state.item_edit_buffer.get(sf.key.as_str()) {
                    Some(v) => v.clone(),
                    None => String::new(),
                };
                state.item_subfield_editing = true;
            }
        }
    }
    nothing()
}

fn on_enter_field(state: &mut AppState, registry: &mut PluginRegistry, ds: &DiscordState) -> (r: InputOutcome)
    ensures
        react_enter_field(old(state)@, old(registry)@, ds@) == outcome(final(state)@, final(registry)@, r),
{
    let pi = state.selected_plugin_index;
    let fi = state.selected_field_index;
    if state.is_dropdown_open {
        let found = match registry.field_at(pi, fi) {
            Some(f) => match choice_at(f.field_type, &f.enum_options, ds, state.dropdown_selected_index) {
                Some(id) => Some((f.key.clone(), id)),
                None => None,
            },
            None => None,
        };
        let command = match found {
            Some((key, id)) => {
                let plugin = registry.name_at(pi).clone();
                registry.set_value_at(pi, fi, id.clone());
                Some(AdminCommand::SaveConfig { plugin, key, value: id })
            },
            None => None,
        };
        state.is_dropdown_open = false;
        InputOutcome { quit: false, command }
    } else if state.is_editing {
        let found = match registry.field_at(pi, fi) {
            Some(f) => Some(f.key.clone()),
            None => None,
        };
        let command = match found {
            Some(key) => {
                let plugin = registry.name_at(pi).clone();
                registry.set_value_at(pi, fi, state.edit_buffer.clone());
                Some(AdminCommand::SaveConfig { plugin, key, value: state.edit_buffer.clone() })
            },
            None => None,
        };
        state.is_editing = false;
        state.edit_buffer = String::new();
        InputOutcome { quit: false, command }
    } else {
        let found = match registry.field_at(pi, fi) {
            Some(f) => Some((f.field_type, f.default_value.clone(), f.key.clone())),
            None => None,
        };
        match found {
            Some((t, value, key)) => if t == ConfigType::List {
                state.config_pane = ConfigPane::ListManager;
                state.selected_list_item_index = 0;
                nothing()
            } else if t == ConfigType::Channel || t == ConfigType::Role || t == ConfigType::Category
                || t == ConfigType::Enum {
                state.is_dropdown_open = true;
                state.dropdown_selected_index = 0;
                nothing()
            } else if t == ConfigType::Boolean {
                let next = if value == "true".to_owned() {
                    "false".to_owned()
                } else {
                    "true".to_owned()
                };
                let plugin = registry.name_at(pi).clone();
                registry.set_value_at(pi, fi, next.clone());
                send(AdminCommand::SaveConfig { plugin, key, value: next })
            } else {
                state.is_editing = true;
                state.edit_buffer = value;
                nothing()
            },
            None => nothing(),
        }
    }
}

fn on_enter(state: &mut AppState, registry: &mut PluginRegistry, ds: &DiscordState) -> (r: InputOutcome)
    ensures
        react_enter(old(state)@, old(registry)@, ds@) == outcome(final(state)@, final(registry)@, r),
{
    let in_config = state.mode == AppMode::Config;
    if in_config && state.config_pane == ConfigPane::PluginList && !state.is_dropdown_open {
        state.config_pane = ConfigPane::FieldList;
        state.selected_field_index = 0;
        nothing()
    } else if in_config && state.config_pane == ConfigPane::ListManager {
        let li = state.selected_list_item_index;
        if let Some(f) = registry.field_at(state.selected_plugin_index, state.selected_field_index) {
            if li < f.list_items.len() {
                assert(f@.list_items[li as int] == f.list_items@[li as int]@);
                state.item_edit_buffer = f.list_items[li].duplicate();
                state.item_edit_field_index = 0;
                state.item_editing_index = Some(li);
                state.item_subfield_editing = false;
                state.item_dropdown_open = false;
                state.config_pane = ConfigPane::ItemEditor;
            }
        }
        nothing()
    } else if in_config && state.config_pane == ConfigPane::ItemEditor && state.item_dropdown_open {
        on_enter_item_pick(state, registry, ds)
    } else if in_config && state.config_pane == ConfigPane::ItemEditor
        && state.item_subfield_editing {
        let k = state.item_edit_field_index;
        if let Some(f) = registry.field_at(state.selected_plugin_index, state.selected_field_index) {
            if k < f.item_schema.len() {
                assert(f@.item_schema[k as int] == f.item_schema@[k as int]@);
                state.item_edit_buffer.insert(f.item_schema[k].key.clone(), state.item_subfield_buffer.clone());
            }
        }
        state.item_subfield_editing = false;
        state.item_subfield_buffer = String::new();
        nothing()
    } else if in_config && state.config_pane == ConfigPane::ItemEditor {
        on_enter_item_open(state, registry)
    } else if in_config && state.config_pane == ConfigPane::FieldList {
        on_enter_field(state, registry, ds)
    } else {
        nothing()
    }
}

/// Handles one key press: updates the dashboard state, saves a field's new
/// value into `registry` at once (the bot is told by the returned command),
/// and says whether to quit.
pub fn handle_input(key: Key, state: &mut AppState, registry: &mut PluginRegistry, ds: &DiscordState) -> (r: InputOutcome)
    requires
        !scroll_overflows(key, old(state)@),
    ensures
        reaction(key, old(state)@, old(registry)@, ds@) == outcome(final(state)@, final(registry)@, r),
{
    if state.input_mode {
        return on_typing(key, state, registry);
    }
    match key {
        Key::Char(c) => on_char(c, state, registry),
        Key::Enter => on_enter(state, registry, ds),
        Key::Esc => on_esc(state, registry),
        Key::Backspace => on_backspace(state, registry),
        Key::Up => on_up(state, registry),
        Key::Down => on_down(state, registry, ds),
        Key::Left => on_left(state, registry),
        Key::Right => on_right(state, registry),
        Key::Other => nothing(),
    }
}

/// Law: the dashboard quits exactly on `q` pressed as a hotkey (outside the
/// command line, with no editor or dropdown open), and then tells the bot
/// to shut down.
pub proof fn law_quit_only_on_q(key: Key, s: AppView, reg: Seq<(Seq<char>, Seq<FieldView>)>, ds: DiscordView)
    ensures
        reaction(key, s, reg, ds).quit <==> (!s.input_mode && key == Key::Char('q') && hotkeys_live(s)),
        reaction(key, s, reg, ds).quit ==> reaction(key, s, reg, ds).command == Some(CommandView::Shutdown),
{
}

/// Law: on the command line keys only edit the line; nothing is sent and
/// no configuration changes.
pub proof fn law_typing_sends_nothing(key: Key, s: AppView, reg: Seq<(Seq<char>, Seq<FieldView>)>, ds: DiscordView)
    requires
        s.input_mode,
    ensures
        reaction(key, s, reg, ds).command is None,
        !reaction(key, s, reg, ds).quit,
        reaction(key, s, reg, ds).registry == reg,
{
}

/// Law: the configuration shown changes only when a field's value is saved,
/// and then it changes exactly as the save sent to the bot says: the
/// selected field of the selected plugin takes the saved value.
pub proof fn law_shown_config_follows_saves(key: Key, s: AppView, reg: Seq<(Seq<char>, Seq<FieldView>)>, ds: DiscordView)
    ensures
        match reaction(key, s, reg, ds).command {
            Some(CommandView::SaveConfig { plugin, key: k, value }) => {
                &&& s.selected_plugin_index < reg.len()
                &&& s.selected_field_index < reg[s.selected_plugin_index as int].1.len()
                &&& plugin == reg[s.selected_plugin_index as int].0
                &&& k == reg[s.selected_plugin_index as int].1[s.selected_field_index as int].key
                &&& reaction(key, s, reg, ds).registry == set_field_value(
                    reg,
                    s.selected_plugin_index,
                    s.selected_field_index,
                    value,
                )
            },
            _ => reaction(key, s, reg, ds).registry == reg,
        },
{
}

/// Law: keys never change which plugins are registered, and a plugin
/// selection that points into the plugin list keeps doing so.
pub proof fn law_plugin_selection_stays_in_range(
    key: Key,
    s: AppView,
    reg: Seq<(Seq<char>, Seq<FieldView>)>,
    ds: DiscordView,
)
    requires
        s.selected_plugin_index < reg.len(),
    ensures
        reaction(key, s, reg, ds).registry.len() == reg.len(),
        forall|i: int| 0 <= i < reg.len() ==> #[trigger] reaction(key, s, reg, ds).registry[i].0 == reg[i].0,
        reaction(key, s, reg, ds).state.selected_plugin_index < reg.len(),
{
}

} // verus!
