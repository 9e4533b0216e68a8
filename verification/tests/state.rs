use discord_to_insta::state::{default_path, is_newer_snowflake, AppState};

#[test]
fn snowflake_numeric_compare() {
    assert!(is_newer_snowflake("2000", "1000"));
    assert!(!is_newer_snowflake("1000", "2000"));
    assert!(!is_newer_snowflake("1000", "1000"));
}

#[test]
fn snowflake_different_lengths() {
    // Older IDs can be shorter. 999 < 1000, don't be fooled by string cmp
    // which would say "999" > "1000" lexically.
    assert!(is_newer_snowflake("1000", "999"));
    assert!(!is_newer_snowflake("999", "1000"));
}

#[test]
fn snowflake_invalid_is_not_newer() {
    assert!(!is_newer_snowflake("abc", "123"));
    assert!(!is_newer_snowflake("123", "abc"));
}

#[test]
fn reactions_record_and_check() {
    let mut s = AppState::default();
    assert!(!s.has_reacted("ch", "m", "✅"));
    s.record_reaction("ch", "m", "✅");
    assert!(s.has_reacted("ch", "m", "✅"));
    assert!(!s.has_reacted("ch", "m", "🚫"));
    s.record_reaction("ch", "m", "🚫");
    assert!(s.has_reacted("ch", "m", "🚫"));
    // Idempotent.
    s.record_reaction("ch", "m", "✅");
    assert!(s.has_reacted("ch", "m", "✅"));
}

#[test]
fn reactions_clear_removes_and_prunes_empty_channel() {
    let mut s = AppState::default();
    s.record_reaction("ch", "m1", "✅");
    s.record_reaction("ch", "m2", "🚫");
    s.clear_reactions("ch", "m1");
    assert!(!s.has_reacted("ch", "m1", "✅"));
    assert!(s.has_reacted("ch", "m2", "🚫"));
    s.clear_reactions("ch", "m2");
    assert!(s.reactions_done_by_channel.get("ch").is_none());
}

#[test]
fn clearing_leaves_other_channels_alone() {
    let mut s = AppState::default();
    s.record_reaction("a", "m", "✅");
    s.record_reaction("b", "m", "✅");
    s.clear_reactions("a", "m");
    s.clear_reactions("c", "m");
    assert!(!s.has_reacted("a", "m", "✅"));
    assert!(s.has_reacted("b", "m", "✅"));
    assert_eq!(s.reactions_done_by_channel.entries().len(), 1);
}

#[test]
fn last_seen_is_kept_per_channel() {
    let mut s = AppState::default();
    assert_eq!(s.last_seen("a"), None);
    s.set_last_seen("a", "1");
    s.set_last_seen("b", "2");
    s.set_last_seen("a", "3");
    assert_eq!(s.last_seen("a"), Some("3".to_string()));
    assert_eq!(s.last_seen("b"), Some("2".to_string()));
    assert_eq!(s.last_weekly_poll, None);
}

#[test]
fn snowflake_order_is_strict() {
    let ids = ["9", "10", "999", "1000", "981806074233507880", "18446744073709551615"];
    for (i, a) in ids.iter().enumerate() {
        for (j, b) in ids.iter().enumerate() {
            assert_eq!(is_newer_snowflake(a, b), i > j);
        }
    }
    assert!(!is_newer_snowflake("18446744073709551616", "1"));
    assert!(!is_newer_snowflake("1", ""));
}

#[test]
fn state_file_goes_where_the_settings_say() {
    let s = |t: &str| Some(t.to_string());
    assert_eq!(default_path(&s("/x"), &s("/h")), vec!["/x", "discord_to_insta", "state.json"]);
    assert_eq!(
        default_path(&None, &s("/h")),
        vec!["/h", ".config", "discord_to_insta", "state.json"]
    );
    assert_eq!(
        default_path(&s(""), &s("/h")),
        vec!["/h", ".config", "discord_to_insta", "state.json"]
    );
    assert_eq!(default_path(&s(""), &s("")), vec!["state.json"]);
    assert_eq!(default_path(&None, &None), vec!["state.json"]);
}
