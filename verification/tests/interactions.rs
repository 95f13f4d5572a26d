use navi_engine::bot::{
    activity_kind, id_or_zero, interval_period, is_lua_file, load_order, loaded_report,
    plan_channel, timeout_until, ActivityKind, Overwrite,
};
use navi_engine::cache::{color_channels, refresh_cache, sort_by_key, ChannelKind, GuildChannel, GuildRole};
use navi_engine::interactions::{
    autocomplete_choices, command_target, modal_inputs, option_kind, sync_report, InputSpec, OptionKind,
};
use navi_engine::types::DiscordState;

#[test]
fn grouped_commands_resolve_to_subcommand() {
    assert_eq!(command_target("tickets", Some(("open", true))), ("open".to_string(), true));
    assert_eq!(command_target("ping", Some(("user", false))), ("ping".to_string(), false));
    assert_eq!(command_target("ping", None), ("ping".to_string(), false));
}

#[test]
fn option_types_by_name() {
    assert_eq!(option_kind("integer"), OptionKind::Integer);
    assert_eq!(option_kind("user"), OptionKind::User);
    assert_eq!(option_kind("number"), OptionKind::Number);
    assert_eq!(option_kind("text"), OptionKind::String);
    assert_eq!(sync_report(3), "✅ Synced slash commands to 3 guilds.");
}

#[test]
fn autocomplete_keeps_first_25_choices() {
    let rows: Vec<(Option<String>, Option<String>)> =
        (0..30).map(|i| (Some(format!("n{}", i)), if i % 2 == 0 { Some(format!("v{}", i)) } else { None })).collect();
    let out = autocomplete_choices(&rows);
    assert_eq!(out.len(), 25);
    assert_eq!(out[0], ("n0".to_string(), "v0".to_string()));
    assert_eq!(out[1], ("n1".to_string(), "n1".to_string()));
    assert_eq!(autocomplete_choices(&vec![(None, None)]), vec![(String::new(), String::new())]);
}

#[test]
fn modal_inputs_get_defaults() {
    let specs = vec![
        InputSpec { id: Some("a".into()), label: None, placeholder: None, required: None, style: Some("paragraph".into()) },
        InputSpec { id: None, label: Some("L".into()), placeholder: Some("p".into()), required: Some(false), style: None },
    ];
    let inputs = modal_inputs(&specs);
    assert_eq!(inputs[0].id, "a");
    assert!(inputs[0].required);
    assert!(inputs[0].paragraph);
    assert_eq!(inputs[1].label, "L");
    assert!(!inputs[1].required);
    assert!(!inputs[1].paragraph);
}

#[test]
fn ids_and_intervals() {
    assert_eq!(id_or_zero("12345"), 12345);
    assert_eq!(id_or_zero("abc"), 0);
    assert_eq!(interval_period(5, Some("s")), 5000);
    assert_eq!(interval_period(2, Some("minutes")), 120000);
    assert_eq!(interval_period(1, Some("h")), 3600000);
    assert_eq!(interval_period(1, Some("days")), 86400000);
    assert_eq!(interval_period(250, None), 250);
    assert_eq!(interval_period(7, Some("weeks")), 7);
    assert_eq!(interval_period(0, Some("s")), 1);
}

#[test]
fn activities_ignore_case() {
    assert_eq!(activity_kind("Playing"), Some(ActivityKind::Playing));
    assert_eq!(activity_kind("WATCHING"), Some(ActivityKind::Watching));
    assert_eq!(activity_kind("custom"), Some(ActivityKind::Custom));
    assert_eq!(activity_kind("dancing"), None);
}

#[test]
fn private_channels_hide_from_everyone() {
    let p = plan_channel("42", "ticket-1".into(), Some("7"), Some("99"), Some("bad"), Some("hi".into()), Some(true));
    assert_eq!(p.guild, 42);
    assert_eq!(p.category, Some(7));
    assert_eq!(p.overwrites, vec![Overwrite::HideFromEveryone(42), Overwrite::AllowMember(99)]);
    assert!(p.close_button);
    let p = plan_channel("x", "open".into(), Some("nope"), None, None, None, None);
    assert_eq!(p.guild, 0);
    assert_eq!(p.category, None);
    assert!(p.overwrites.is_empty());
    assert!(!p.close_button);
    assert_eq!(timeout_until(100, 0), None);
    assert_eq!(timeout_until(100, 60), Some(160));
}

#[test]
fn plugin_files_load_in_name_order() {
    assert!(is_lua_file("a.lua"));
    assert!(!is_lua_file(".lua"));
    assert!(!is_lua_file("a.LUA"));
    assert!(!is_lua_file("lua"));
    assert!(is_lua_file("x.y.lua"));
    let names = vec!["zeta.lua".to_string(), "readme.md".to_string(), "alpha.lua".to_string(), "Beta.lua".to_string()];
    assert_eq!(load_order(&names), vec!["Beta.lua".to_string(), "alpha.lua".to_string(), "zeta.lua".to_string()]);
    assert_eq!(loaded_report(3), "Loaded 3 plugins.");
}

#[test]
fn sort_is_stable_and_refresh_keeps_order() {
    let v = vec![("b".to_string(), 1u8), ("a".to_string(), 2u8), ("b".to_string(), 3u8), ("a".to_string(), 4u8)];
    let s = sort_by_key(v);
    assert_eq!(s.iter().map(|e| e.1).collect::<Vec<_>>(), vec![2, 4, 1, 3]);
    assert_eq!(color_channels(0xABCDEF), (0xAB, 0xCD, 0xEF));
    let mut ds = DiscordState::new();
    let guilds = vec![
        (
            vec![
                GuildChannel { id: 2, kind: ChannelKind::Other, name: "voice".into() },
                GuildChannel { id: 1, kind: ChannelKind::Category, name: "cat".into() },
            ],
            vec![GuildRole { id: 5, name: "r".into(), colour: 0 }],
        ),
        (vec![GuildChannel { id: 3, kind: ChannelKind::Text, name: "a".into() }], vec![]),
    ];
    let msg = refresh_cache(&mut ds, &guilds);
    assert_eq!(msg, "Cached 2 channels, 1 categories, 1 roles.");
    assert_eq!(ds.channels, vec![("2".to_string(), "voice".to_string()), ("3".to_string(), "a".to_string())]);
}
