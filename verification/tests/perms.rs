use navi_engine::perms::{
    check_perm, decode_items, denial_message, perm_level_name, permissions_schema,
    unknown_level_message, user_level, PermContext, PermDecision,
};
use navi_engine::strmap::StrMap;
use navi_engine::types::{ConfigType, PermLevel};

fn map(pairs: &[(&str, &str)]) -> StrMap {
    StrMap::from_pairs(pairs.iter().map(|(k, v)| (k.to_string(), v.to_string())).collect())
}

fn ctx(user: &str, guild: &str, roles: &[&str]) -> PermContext {
    PermContext {
        user_id: user.into(),
        guild_id: guild.into(),
        member_roles: roles.iter().map(|r| r.to_string()).collect(),
    }
}

#[test]
fn level_names_parse_ignoring_case() {
    assert_eq!(PermLevel::from_str("ADMIN"), Some(PermLevel::Admin));
    assert_eq!(PermLevel::from_str("Moderator"), Some(PermLevel::Moderator));
    assert_eq!(PermLevel::from_str("owner"), Some(PermLevel::Owner));
    assert_eq!(PermLevel::from_str("superuser"), None);
    assert_eq!(PermLevel::from_str(""), None);
    for l in [PermLevel::User, PermLevel::Helper, PermLevel::Moderator, PermLevel::Admin, PermLevel::Owner] {
        assert_eq!(PermLevel::from_str(l.as_str()), Some(l));
    }
    assert!(PermLevel::Admin.at_least(&PermLevel::Helper));
    assert!(!PermLevel::User.at_least(&PermLevel::Helper));
}

#[test]
fn owner_and_role_mappings_set_level() {
    let owners = map(&[("g1", "boss")]);
    let mappings = vec![
        map(&[("role_id", "r-mod"), ("level", "moderator")]),
        map(&[("role_id", "r-help"), ("level", "Helper")]),
        map(&[("role_id", "r-bad"), ("level", "emperor")]),
        map(&[("level", "admin")]),
    ];
    assert_eq!(user_level("boss", "g1", &vec![], &owners, &mappings), PermLevel::Owner);
    assert_eq!(user_level("u", "g1", &vec!["r-help".into(), "r-mod".into()], &owners, &mappings), PermLevel::Moderator);
    assert_eq!(user_level("u", "g1", &vec!["r-bad".into()], &owners, &mappings), PermLevel::User);
    assert_eq!(user_level("boss", "g2", &vec![], &owners, &mappings), PermLevel::User);
}

#[test]
fn permission_checks_answer() {
    let owners = map(&[("g1", "boss")]);
    let mappings = vec![map(&[("role_id", "r"), ("level", "admin")])];
    let c = ctx("u", "g1", &["r"]);
    assert_eq!(check_perm("moderator", Some(&c), &owners, &mappings), PermDecision::Granted);
    assert_eq!(check_perm("owner", Some(&c), &owners, &mappings), PermDecision::Denied);
    assert_eq!(check_perm("nope", Some(&c), &owners, &mappings), PermDecision::UnknownLevel);
    assert_eq!(check_perm("user", None, &owners, &mappings), PermDecision::NoContext);
    assert_eq!(perm_level_name(Some(&c), &owners, &mappings), "admin");
    assert_eq!(perm_level_name(None, &owners, &mappings), "user");
    assert_eq!(unknown_level_message("x"), "[perms] Unknown level: 'x'");
    assert_eq!(denial_message("admin"), "❌ You need **admin** permission to use this.");
}

#[test]
fn permission_schema_lists_mappings() {
    let items = decode_items(&vec![
        Some("{\"role_id\":\"1\",\"level\":\"admin\"}".into()),
        None,
        Some("oops".into()),
    ]);
    assert_eq!(items.len(), 1);
    let s = permissions_schema(items);
    assert_eq!(s.fields.len(), 1);
    assert_eq!(s.fields[0].key, "mappings");
    assert_eq!(s.fields[0].field_type, ConfigType::List);
    assert_eq!(s.fields[0].item_schema[0].field_type, ConfigType::Role);
    assert_eq!(s.fields[0].list_items.len(), 1);
}
