use navi_engine::components::{
    build_reply_embed, button_style, layout_components, make_button, parse_color, plan_message,
    ActionRow, Button, ButtonStyle, ComponentSpec, FieldSpec, MessageSpec, OptionSpec,
};

fn comp(kind: Option<&str>) -> ComponentSpec {
    ComponentSpec {
        kind: kind.map(|s| s.to_string()),
        label: None,
        style: None,
        url: None,
        id: None,
        placeholder: None,
        options: Vec::new(),
    }
}

fn message(title: Option<&str>, components: Vec<ComponentSpec>) -> MessageSpec {
    MessageSpec {
        title: title.map(|s| s.to_string()),
        description: None,
        color: None,
        image: Some(String::new()),
        fields: vec![FieldSpec { name: Some("n".into()), value: None, inline: None }],
        components,
    }
}

#[test]
fn button_styles_by_name() {
    assert_eq!(button_style("secondary"), ButtonStyle::Secondary);
    assert_eq!(button_style("gray"), ButtonStyle::Secondary);
    assert_eq!(button_style("green"), ButtonStyle::Success);
    assert_eq!(button_style("red"), ButtonStyle::Danger);
    assert_eq!(button_style("primary"), ButtonStyle::Primary);
    assert_eq!(button_style("sparkly"), ButtonStyle::Primary);
}

#[test]
fn buttons_get_defaults() {
    match make_button(&comp(None), "https://discord.com") {
        Button::Action { id, style, label } => {
            assert_eq!(id, "unknown");
            assert_eq!(style, ButtonStyle::Primary);
            assert_eq!(label, "Button");
        }
        other => panic!("unexpected {:?}", other),
    }
    let mut link = comp(Some("button"));
    link.style = Some("url".into());
    match make_button(&link, "https://discord.com") {
        Button::Link { url, label } => {
            assert_eq!(url, "https://discord.com");
            assert_eq!(label, "Button");
        }
        other => panic!("unexpected {:?}", other),
    }
}

#[test]
fn consecutive_buttons_share_a_row() {
    let mut select = comp(Some("select"));
    select.options = vec![
        OptionSpec { label: Some("A".into()), value: None, description: Some("d".into()), emoji: Some("😀".into()) },
        OptionSpec { label: None, value: Some("v".into()), description: None, emoji: None },
    ];
    let cs = vec![comp(None), comp(Some("button")), select, comp(Some("text")), comp(Some("button"))];
    let rows = layout_components(&cs, "https://discord.com", true);
    assert_eq!(rows.len(), 3);
    match &rows[0] {
        ActionRow::Buttons(b) => assert_eq!(b.len(), 2),
        other => panic!("unexpected {:?}", other),
    }
    match &rows[1] {
        ActionRow::Menu { id, placeholder, options } => {
            assert_eq!(id, "select_menu");
            assert_eq!(placeholder, "Select an option...");
            assert_eq!(options[0].value, "A");
            assert_eq!(options[0].emoji.as_deref(), Some("😀"));
            assert_eq!(options[1].label, "Option");
            assert_eq!(options[1].value, "v");
        }
        other => panic!("unexpected {:?}", other),
    }
    match &rows[2] {
        ActionRow::Buttons(b) => assert_eq!(b.len(), 1),
        other => panic!("unexpected {:?}", other),
    }
    assert!(layout_components(&vec![comp(Some("other"))], "", false).is_empty());
}

#[test]
fn sent_message_embed_only_with_title_or_description() {
    assert_eq!(parse_color(None), 0);
    assert_eq!(parse_color(Some(0xff00ff)), 0xff00ff);
    let plan = plan_message(&message(None, vec![]));
    assert!(plan.embed.is_none());
    assert!(plan.rows.is_empty());
    let plan = plan_message(&message(Some("Hi"), vec![comp(None)]));
    let e = plan.embed.unwrap();
    assert_eq!(e.title.as_deref(), Some("Hi"));
    assert_eq!(e.color, Some(0));
    assert!(e.image.is_none());
    assert_eq!(e.fields[0].name, "n");
    assert_eq!(e.fields[0].value, "");
    assert!(!e.fields[0].inline);
    assert_eq!(plan.rows.len(), 1);
}

#[test]
fn reply_always_has_embed() {
    let mut m = message(None, vec![]);
    m.image = Some("https://img".into());
    let mut link = comp(None);
    link.style = Some("link".into());
    let mut menu = comp(Some("select"));
    menu.options = vec![OptionSpec { label: Some("A".into()), value: None, description: None, emoji: Some("x".into()) }];
    m.components = vec![link, menu];
    let plan = build_reply_embed(&m, true);
    assert!(plan.ephemeral);
    assert!(plan.embed.title.is_none());
    assert_eq!(plan.embed.color, None);
    assert_eq!(plan.embed.image.as_deref(), Some("https://img"));
    match &plan.rows[0] {
        ActionRow::Buttons(b) => match &b[0] {
            Button::Link { url, .. } => assert_eq!(url, ""),
            other => panic!("unexpected {:?}", other),
        },
        other => panic!("unexpected {:?}", other),
    }
    match &plan.rows[1] {
        ActionRow::Menu { options, .. } => assert!(options[0].emoji.is_none()),
        other => panic!("unexpected {:?}", other),
    }
}
