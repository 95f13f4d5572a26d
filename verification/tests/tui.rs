use navi_engine::cache::{cache_guild, ChannelKind, GuildChannel, GuildRole};
use navi_engine::registry::PluginRegistry;
use navi_engine::strmap::StrMap;
use navi_engine::tui_input::{handle_input, InputOutcome, Key};
use navi_engine::tui_state::{AppMode, AppState, ConfigPane, MAX_LOG_LINES};
use navi_engine::tui_view::{
    clamp_selection, config_help_text, controls_text, dropdown_lines, dropdown_title, item_summary,
    log_prefix, role_value_color, safe_index, split_log_tag, update_log_scroll, value_display,
    white_space,
};
use navi_engine::types::{
    AdminCommand, ConfigField, ConfigItemSchema, ConfigType, DiscordState, LogLevel, PluginSchema,
};

fn field(key: &str, t: ConfigType, value: &str) -> ConfigField {
    ConfigField {
        key: key.to_string(),
        name: key.to_uppercase(),
        description: String::new(),
        field_type: t,
        default_value: value.to_string(),
        item_schema: Vec::new(),
        list_items: Vec::new(),
        enum_options: Vec::new(),
    }
}

fn item(pairs: &[(&str, &str)]) -> StrMap {
    StrMap::from_pairs(pairs.iter().map(|(k, v)| (k.to_string(), v.to_string())).collect())
}

fn sample_registry() -> PluginRegistry {
    let mut reg = PluginRegistry::new();
    let mut list = field("rules", ConfigType::List, "");
    list.item_schema = vec![
        ConfigItemSchema { key: "role".into(), name: "Role".into(), field_type: ConfigType::Role, enum_options: vec![] },
        ConfigItemSchema { key: "on".into(), name: "On".into(), field_type: ConfigType::Boolean, enum_options: vec![] },
        ConfigItemSchema { key: "note".into(), name: "Note".into(), field_type: ConfigType::String, enum_options: vec![] },
    ];
    list.list_items = vec![item(&[("role", "r1"), ("on", "true")]), item(&[("note", "hi")])];
    let mut mode = field("mode", ConfigType::Enum, "");
    mode.enum_options = vec!["fast".into(), "slow".into()];
    reg.register(
        "welcome".to_string(),
        PluginSchema {
            fields: vec![
                field("greeting", ConfigType::String, "Hello"),
                field("enabled", ConfigType::Boolean, "false"),
                field("channel", ConfigType::Channel, ""),
                list,
                mode,
            ],
        },
    );
    reg.register("alpha".to_string(), PluginSchema { fields: vec![field("x", ConfigType::Number, "1")] });
    reg
}

fn sample_discord() -> DiscordState {
    let mut ds = DiscordState::new();
    ds.channels = vec![("100".into(), "general".into()), ("200".into(), "rules".into())];
    ds.categories = vec![("300".into(), "Tickets".into())];
    ds.roles = vec![
        navi_engine::types::DiscordRole { id: "r1".into(), name: "Admin".into(), color: (255, 0, 0) },
        navi_engine::types::DiscordRole { id: "r2".into(), name: "Plain".into(), color: (0, 0, 0) },
    ];
    ds
}

fn press(key: Key, st: &mut AppState, reg: &mut PluginRegistry, ds: &DiscordState) -> InputOutcome {
    handle_input(key, st, reg, ds)
}

fn go_to_field(st: &mut AppState, reg: &mut PluginRegistry, ds: &DiscordState, plugin: usize, field: usize) {
    press(Key::Char('c'), st, reg, ds);
    for _ in 0..plugin {
        press(Key::Down, st, reg, ds);
    }
    press(Key::Right, st, reg, ds);
    for _ in 0..field {
        press(Key::Down, st, reg, ds);
    }
}

#[test]
fn quit_hotkey_sends_shutdown() {
    let mut st = AppState::new();
    let mut reg = sample_registry();
    let ds = sample_discord();
    let out = press(Key::Char('q'), &mut st, &mut reg, &ds);
    assert!(out.quit);
    assert!(matches!(out.command, Some(AdminCommand::Shutdown)));
}

#[test]
fn hotkeys_send_commands() {
    let mut st = AppState::new();
    let mut reg = sample_registry();
    let ds = sample_discord();
    assert!(matches!(press(Key::Char('r'), &mut st, &mut reg, &ds).command, Some(AdminCommand::Reload)));
    assert!(matches!(press(Key::Char('u'), &mut st, &mut reg, &ds).command, Some(AdminCommand::RefreshCache)));
    assert!(matches!(press(Key::Char('U'), &mut st, &mut reg, &ds).command, Some(AdminCommand::CheckUpdate)));
    assert!(!press(Key::Char('x'), &mut st, &mut reg, &ds).quit);
}

#[test]
fn typing_mode_collects_and_logs_line() {
    let mut st = AppState::new();
    let mut reg = sample_registry();
    let ds = sample_discord();
    press(Key::Char('i'), &mut st, &mut reg, &ds);
    assert!(st.input_mode);
    for c in "qhey".chars() {
        let out = press(Key::Char(c), &mut st, &mut reg, &ds);
        assert!(!out.quit);
        assert!(out.command.is_none());
    }
    press(Key::Backspace, &mut st, &mut reg, &ds);
    assert_eq!(st.input_buffer, "qhe");
    press(Key::Enter, &mut st, &mut reg, &ds);
    assert!(!st.input_mode);
    assert_eq!(st.input_buffer, "");
    assert_eq!(st.logs.last().unwrap().0, LogLevel::Info);
    assert_eq!(st.logs.last().unwrap().1, "You typed: qhe");
}

#[test]
fn insert_key_only_works_in_log_view() {
    let mut st = AppState::new();
    let mut reg = sample_registry();
    let ds = sample_discord();
    press(Key::Char('c'), &mut st, &mut reg, &ds);
    press(Key::Char('i'), &mut st, &mut reg, &ds);
    assert!(!st.input_mode);
    press(Key::Char('l'), &mut st, &mut reg, &ds);
    assert_eq!(st.mode, AppMode::Logs);
}

#[test]
fn log_scrolling_stops_at_limits() {
    let mut st = AppState::new();
    let mut reg = sample_registry();
    let ds = sample_discord();
    st.log_scroll = 1;
    st.log_scroll_max = 2;
    st.log_auto_scroll = false;
    press(Key::Down, &mut st, &mut reg, &ds);
    assert_eq!(st.log_scroll, 2);
    assert!(st.log_auto_scroll);
    press(Key::Down, &mut st, &mut reg, &ds);
    assert_eq!(st.log_scroll, 2);
    press(Key::Up, &mut st, &mut reg, &ds);
    press(Key::Up, &mut st, &mut reg, &ds);
    press(Key::Up, &mut st, &mut reg, &ds);
    assert_eq!(st.log_scroll, 0);
    assert!(!st.log_auto_scroll);
}

#[test]
fn plugin_list_navigation_is_bounded() {
    let mut st = AppState::new();
    let mut reg = sample_registry();
    let ds = sample_discord();
    press(Key::Char('c'), &mut st, &mut reg, &ds);
    assert_eq!(st.config_pane, ConfigPane::PluginList);
    press(Key::Down, &mut st, &mut reg, &ds);
    press(Key::Down, &mut st, &mut reg, &ds);
    assert_eq!(st.selected_plugin_index, 1);
    press(Key::Up, &mut st, &mut reg, &ds);
    press(Key::Up, &mut st, &mut reg, &ds);
    assert_eq!(st.selected_plugin_index, 0);
    press(Key::Enter, &mut st, &mut reg, &ds);
    assert_eq!(st.config_pane, ConfigPane::FieldList);
    press(Key::Esc, &mut st, &mut reg, &ds);
    assert_eq!(st.config_pane, ConfigPane::PluginList);
}

#[test]
fn editing_text_field_saves_value_and_sends_it() {
    let mut st = AppState::new();
    let mut reg = sample_registry();
    let ds = sample_discord();
    go_to_field(&mut st, &mut reg, &ds, 1, 0);
    press(Key::Enter, &mut st, &mut reg, &ds);
    assert!(st.is_editing);
    assert_eq!(st.edit_buffer, "Hello");
    press(Key::Char('!'), &mut st, &mut reg, &ds);
    let out = press(Key::Enter, &mut st, &mut reg, &ds);
    assert!(!st.is_editing);
    match out.command {
        Some(AdminCommand::SaveConfig { plugin, key, value }) => {
            assert_eq!(plugin, "welcome");
            assert_eq!(key, "greeting");
            assert_eq!(value, "Hello!");
        }
        other => panic!("unexpected {:?}", other),
    }
    assert_eq!(reg.field_at(1, 0).unwrap().default_value, "Hello!");
}

#[test]
fn escape_cancels_text_edit() {
    let mut st = AppState::new();
    let mut reg = sample_registry();
    let ds = sample_discord();
    go_to_field(&mut st, &mut reg, &ds, 1, 0);
    press(Key::Enter, &mut st, &mut reg, &ds);
    press(Key::Char('z'), &mut st, &mut reg, &ds);
    let out = press(Key::Esc, &mut st, &mut reg, &ds);
    assert!(out.command.is_none());
    assert!(!st.is_editing);
    assert_eq!(st.edit_buffer, "");
    assert_eq!(reg.field_at(1, 0).unwrap().default_value, "Hello");
}

#[test]
fn boolean_field_toggles() {
    let mut st = AppState::new();
    let mut reg = sample_registry();
    let ds = sample_discord();
    go_to_field(&mut st, &mut reg, &ds, 1, 1);
    let out = press(Key::Enter, &mut st, &mut reg, &ds);
    assert!(matches!(out.command, Some(AdminCommand::SaveConfig { ref value, .. }) if value == "true"));
    assert_eq!(reg.field_at(1, 1).unwrap().default_value, "true");
    press(Key::Enter, &mut st, &mut reg, &ds);
    assert_eq!(reg.field_at(1, 1).unwrap().default_value, "false");
}

#[test]
fn channel_dropdown_picks_cached_channel() {
    let mut st = AppState::new();
    let mut reg = sample_registry();
    let ds = sample_discord();
    go_to_field(&mut st, &mut reg, &ds, 1, 2);
    press(Key::Enter, &mut st, &mut reg, &ds);
    assert!(st.is_dropdown_open);
    press(Key::Down, &mut st, &mut reg, &ds);
    press(Key::Down, &mut st, &mut reg, &ds);
    assert_eq!(st.dropdown_selected_index, 1);
    let out = press(Key::Enter, &mut st, &mut reg, &ds);
    assert!(!st.is_dropdown_open);
    assert!(matches!(out.command, Some(AdminCommand::SaveConfig { ref value, .. }) if value == "200"));
    assert_eq!(reg.field_at(1, 2).unwrap().default_value, "200");
}

#[test]
fn enum_dropdown_picks_option() {
    let mut st = AppState::new();
    let mut reg = sample_registry();
    let ds = sample_discord();
    go_to_field(&mut st, &mut reg, &ds, 1, 4);
    press(Key::Enter, &mut st, &mut reg, &ds);
    press(Key::Down, &mut st, &mut reg, &ds);
    let out = press(Key::Enter, &mut st, &mut reg, &ds);
    assert!(matches!(out.command, Some(AdminCommand::SaveConfig { ref value, .. }) if value == "slow"));
}

#[test]
fn list_manager_add_edit_delete_items() {
    let mut st = AppState::new();
    let mut reg = sample_registry();
    let ds = sample_discord();
    go_to_field(&mut st, &mut reg, &ds, 1, 3);
    press(Key::Enter, &mut st, &mut reg, &ds);
    assert_eq!(st.config_pane, ConfigPane::ListManager);
    press(Key::Down, &mut st, &mut reg, &ds);
    assert_eq!(st.selected_list_item_index, 1);
    press(Key::Down, &mut st, &mut reg, &ds);
    assert_eq!(st.selected_list_item_index, 1);
    // open the first item and toggle its boolean sub-field
    press(Key::Up, &mut st, &mut reg, &ds);
    press(Key::Enter, &mut st, &mut reg, &ds);
    assert_eq!(st.config_pane, ConfigPane::ItemEditor);
    assert_eq!(st.item_editing_index, Some(0));
    press(Key::Down, &mut st, &mut reg, &ds);
    press(Key::Enter, &mut st, &mut reg, &ds);
    assert_eq!(st.item_edit_buffer.get("on").unwrap(), "false");
    // type a note
    press(Key::Down, &mut st, &mut reg, &ds);
    press(Key::Enter, &mut st, &mut reg, &ds);
    assert!(st.item_subfield_editing);
    for c in "ok".chars() {
        press(Key::Char(c), &mut st, &mut reg, &ds);
    }
    press(Key::Enter, &mut st, &mut reg, &ds);
    assert_eq!(st.item_edit_buffer.get("note").unwrap(), "ok");
    // pick a role from the dropdown
    press(Key::Up, &mut st, &mut reg, &ds);
    press(Key::Up, &mut st, &mut reg, &ds);
    press(Key::Enter, &mut st, &mut reg, &ds);
    assert!(st.item_dropdown_open);
    press(Key::Down, &mut st, &mut reg, &ds);
    press(Key::Enter, &mut st, &mut reg, &ds);
    assert_eq!(st.item_edit_buffer.get("role").unwrap(), "r2");
    let out = press(Key::Char('s'), &mut st, &mut reg, &ds);
    match out.command {
        Some(AdminCommand::UpdateListItem { plugin, key, index, item }) => {
            assert_eq!(plugin, "welcome");
            assert_eq!(key, "rules");
            assert_eq!(index, 0);
            assert_eq!(item.get("role").unwrap(), "r2");
            assert_eq!(item.get("on").unwrap(), "false");
            assert_eq!(item.get("note").unwrap(), "ok");
        }
        other => panic!("unexpected {:?}", other),
    }
    assert_eq!(st.config_pane, ConfigPane::ListManager);
    assert_eq!(st.item_edit_buffer.len(), 0);
    // add a new item
    press(Key::Char('n'), &mut st, &mut reg, &ds);
    assert_eq!(st.config_pane, ConfigPane::ItemEditor);
    let out = press(Key::Char('s'), &mut st, &mut reg, &ds);
    assert!(matches!(out.command, Some(AdminCommand::AppendListItem { .. })));
    // delete the selected item
    press(Key::Down, &mut st, &mut reg, &ds);
    let out = press(Key::Char('d'), &mut st, &mut reg, &ds);
    match out.command {
        Some(AdminCommand::DeleteListItem { plugin, key, index }) => {
            assert_eq!((plugin.as_str(), key.as_str(), index), ("welcome", "rules", 1));
        }
        other => panic!("unexpected {:?}", other),
    }
    assert_eq!(st.selected_list_item_index, 0);
}

#[test]
fn state_helpers_keep_logs_and_paste() {
    let mut st = AppState::new();
    for i in 0..(MAX_LOG_LINES + 1) {
        st.push_log(LogLevel::Warn, format!("line {}", i));
    }
    st.trim_logs();
    assert_eq!(st.logs.len(), MAX_LOG_LINES);
    assert_eq!(st.logs[0].1, "line 1");
    st.input_mode = true;
    st.paste("abc");
    assert_eq!(st.input_buffer, "abc");
    st.is_editing = true;
    st.paste("x");
    assert_eq!(st.edit_buffer, "x");
    assert_eq!(st.input_buffer, "abc");
}

#[test]
fn log_lines_split_tag() {
    assert_eq!(log_prefix(LogLevel::Error), "[E]");
    assert_eq!(log_prefix(LogLevel::Warn), "[W]");
    assert_eq!(log_prefix(LogLevel::Info), "[I]");
    assert_eq!(split_log_tag("[greeter.lua]   hello"), (Some("[greeter.lua]".to_string()), "hello".to_string()));
    assert_eq!(split_log_tag("[x]\u{3000}\ty"), (Some("[x]".to_string()), "y".to_string()));
    assert_eq!(split_log_tag("[open tag"), (None, "[open tag".to_string()));
    assert_eq!(split_log_tag("plain [a] text"), (None, "plain [a] text".to_string()));
}

#[test]
fn white_space_matches_std() {
    for u in 0u32..=0x10FFFF {
        if let Some(c) = char::from_u32(u) {
            assert_eq!(white_space(c), c.is_whitespace(), "{:x}", u);
        }
    }
}

#[test]
fn log_scroll_follows_or_keeps_position() {
    let mut st = AppState::new();
    let off = update_log_scroll(&mut st, 50, 12);
    assert_eq!(st.log_scroll_max, 40);
    assert_eq!(st.log_scroll, 40);
    assert_eq!(off, 40);
    st.log_auto_scroll = false;
    st.log_scroll = 45;
    let off = update_log_scroll(&mut st, 50, 12);
    assert_eq!(off, 40);
    assert_eq!(st.log_scroll, 45);
    let off = update_log_scroll(&mut st, 3, 1);
    assert_eq!(st.log_scroll_max, 3);
    assert_eq!(off, 3);
}

#[test]
fn selections_are_clamped_to_lists() {
    let reg = sample_registry();
    let mut st = AppState::new();
    st.mode = AppMode::Config;
    st.selected_plugin_index = 9;
    st.selected_field_index = 9;
    clamp_selection(&mut st, &reg);
    assert_eq!(st.selected_plugin_index, 1);
    assert_eq!(st.selected_field_index, 4);
    st.selected_field_index = 3;
    st.config_pane = ConfigPane::ListManager;
    st.selected_list_item_index = 7;
    clamp_selection(&mut st, &reg);
    assert_eq!(st.selected_list_item_index, 1);
    st.config_pane = ConfigPane::ItemEditor;
    st.item_edit_field_index = 7;
    clamp_selection(&mut st, &reg);
    assert_eq!(st.item_edit_field_index, 2);
    assert_eq!(safe_index(5, 3), 2);
    assert_eq!(safe_index(1, 3), 1);
    assert_eq!(safe_index(4, 0), 0);
}

#[test]
fn field_values_are_shown_by_name() {
    let ds = sample_discord();
    assert_eq!(value_display(ConfigType::Channel, "200", &ds), "#rules");
    assert_eq!(value_display(ConfigType::Channel, "999", &ds), "999");
    assert_eq!(value_display(ConfigType::Channel, "", &ds), "(not set)");
    assert_eq!(value_display(ConfigType::Category, "300", &ds), "Tickets");
    assert_eq!(value_display(ConfigType::Role, "r1", &ds), "@Admin");
    assert_eq!(value_display(ConfigType::Enum, "", &ds), "(not set)");
    assert_eq!(value_display(ConfigType::String, "", &ds), "");
    assert_eq!(role_value_color("r1", &ds), Some((255, 0, 0)));
    assert_eq!(role_value_color("r2", &ds), None);
    assert_eq!(role_value_color("zz", &ds), None);
}

#[test]
fn list_items_are_summed_up() {
    let schema = vec![
        ConfigItemSchema { key: "role".into(), name: "Role".into(), field_type: ConfigType::Role, enum_options: vec![] },
        ConfigItemSchema { key: "level".into(), name: "Level".into(), field_type: ConfigType::String, enum_options: vec![] },
    ];
    assert_eq!(item_summary(&schema, &item(&[("level", "admin"), ("role", "5")])), "role=5  level=admin");
    assert_eq!(item_summary(&schema, &item(&[])), "role=  level=");
    assert_eq!(item_summary(&vec![], &item(&[("a", "b")])), "");
}

#[test]
fn dropdown_entries_highlight_selection() {
    let ds = sample_discord();
    assert_eq!(dropdown_title(ConfigType::Channel), " 📚 Select Channel ");
    assert_eq!(dropdown_title(ConfigType::Number), " Select ");
    assert_eq!(
        dropdown_lines(ConfigType::Channel, &vec![], &ds, 7),
        vec!["  #general".to_string(), "> #rules (200)".to_string()]
    );
    assert_eq!(dropdown_lines(ConfigType::Role, &vec![], &ds, 0)[0], "> @Admin (r1)");
    assert_eq!(dropdown_lines(ConfigType::Category, &vec![], &ds, 0)[0], "> 📁 Tickets (300)");
    assert_eq!(
        dropdown_lines(ConfigType::Enum, &vec!["a".into(), "b".into()], &ds, 1),
        vec!["  a".to_string(), "> b".to_string()]
    );
    assert!(dropdown_lines(ConfigType::String, &vec![], &ds, 0).is_empty());
}

#[test]
fn help_lines_follow_state() {
    let mut st = AppState::new();
    assert!(controls_text(&st).starts_with("Up/Down: scroll logs"));
    st.input_mode = true;
    st.input_buffer = "abc".into();
    assert_eq!(controls_text(&st), "> abc_");
    st.input_mode = false;
    assert_eq!(
        config_help_text(&st),
        "Press 'Up/Down' to select plugin | 'Right' or 'Enter' to configure | 'l' for Logs | 'q' to quit"
    );
    st.config_pane = ConfigPane::ListManager;
    assert_eq!(config_help_text(&st), "Up/Down to select item | Enter=edit | n=add | d=delete | Esc=back");
    st.item_dropdown_open = true;
    assert_eq!(config_help_text(&st), "Up/Down to scroll | Enter to confirm | Esc to cancel");
}

#[test]
fn guild_cache_sorts_by_name() {
    let mut ds = DiscordState::new();
    ds.set_guild_owner("g".into(), "u".into());
    let channels = vec![
        GuildChannel { id: 3, kind: ChannelKind::Text, name: "zeta".into() },
        GuildChannel { id: 1, kind: ChannelKind::Category, name: "B".into() },
        GuildChannel { id: 2, kind: ChannelKind::Text, name: "alpha".into() },
        GuildChannel { id: 4, kind: ChannelKind::Other, name: "voice".into() },
    ];
    let roles = vec![GuildRole { id: 9, name: "mod".into(), colour: 0x112233 }];
    let msg = cache_guild(&mut ds, &channels, &roles);
    assert_eq!(msg, "Cached 2 channels, 1 categories, 1 roles.");
    assert_eq!(ds.channels, vec![("2".to_string(), "alpha".to_string()), ("3".to_string(), "zeta".to_string())]);
    assert_eq!(ds.roles[0].color, (0x11, 0x22, 0x33));
    assert_eq!(ds.guild_owners.get("g").unwrap(), "u");
}
