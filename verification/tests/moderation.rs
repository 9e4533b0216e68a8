use discord_to_insta::gateway::MessageEvent;
use discord_to_insta::moderation::{
    find_invite_codes, inspect_create, sort_pairs, Action, Call, Enforcement, Tracker,
    ALERT_USER_ID,
};

#[test]
fn finds_invite_codes_all_hosts() {
    assert_eq!(find_invite_codes("join discord.gg/abc123"), vec!["abc123"]);
    assert_eq!(
        find_invite_codes("https://discord.com/invite/xYz-9"),
        vec!["xYz-9"]
    );
    assert_eq!(
        find_invite_codes("DISCORDAPP.COM/INVITE/Old1"),
        vec!["Old1"]
    );
    assert_eq!(
        find_invite_codes("<https://canary.discord.gg/sub>"),
        vec!["sub"]
    );
}

#[test]
fn ignores_non_invites() {
    assert!(find_invite_codes("bonjour tout le monde").is_empty());
    assert!(find_invite_codes("https://discord.com/channels/1/2/3").is_empty());
    assert!(find_invite_codes("mydiscord.gg/fake").is_empty());
}

#[test]
fn dedups_and_stops_at_punctuation() {
    assert_eq!(
        find_invite_codes("discord.gg/abc discord.gg/abc!"),
        vec!["abc"]
    );
    assert_eq!(
        find_invite_codes("discord.gg/one et discord.gg/two"),
        vec!["one", "two"]
    );
}

#[test]
fn same_channel_repeats_only_warn() {
    let mut t = Tracker::default();
    assert_eq!(t.record("u1", "code", "chan1", "m1"), Action::Warn);
    assert_eq!(t.record("u1", "code", "chan1", "m2"), Action::Warn);
}

#[test]
fn second_channel_escalates_with_all_messages_and_one_dm() {
    let mut t = Tracker::default();
    assert_eq!(t.record("u1", "code", "chan1", "m1"), Action::Warn);
    assert_eq!(
        t.record("u1", "code", "chan2", "m2"),
        Action::Delete {
            messages: vec![("chan1".into(), "m1".into()), ("chan2".into(), "m2".into())],
            dm: true,
        }
    );
    // Later messages for the same pair: delete only the new one, no DM.
    assert_eq!(
        t.record("u1", "code", "chan1", "m3"),
        Action::Delete {
            messages: vec![("chan1".into(), "m3".into())],
            dm: false,
        }
    );
}

#[test]
fn different_code_or_user_tracked_separately() {
    let mut t = Tracker::default();
    assert_eq!(t.record("u1", "code", "chan1", "m1"), Action::Warn);
    assert_eq!(t.record("u1", "other", "chan2", "m2"), Action::Warn);
    assert_eq!(t.record("u2", "code", "chan2", "m3"), Action::Warn);
}

#[test]
fn delete_failure_notice_once_per_user() {
    let mut t = Tracker::default();
    assert!(t.should_notify_delete_failure("u1"));
    assert!(!t.should_notify_delete_failure("u1"));
    assert!(t.should_notify_delete_failure("u2"));
}

#[test]
fn codes_keep_their_case_and_first_order() {
    assert_eq!(
        find_invite_codes("discord.gg/b discord.gg/a discord.gg/B discord.gg/b"),
        vec!["b", "a", "B"]
    );
}

#[test]
fn every_post_is_handed_over_once() {
    let mut t = Tracker::default();
    let posts = [("c1", "m1"), ("c1", "m2"), ("c2", "m3"), ("c3", "m4"), ("c1", "m5")];
    let mut handed: Vec<(String, String)> = Vec::new();
    let mut alerts = 0;
    for (c, m) in posts {
        if let Action::Delete { messages, dm } = t.record("u", "code", c, m) {
            handed.extend(messages);
            if dm {
                alerts += 1;
            }
        }
    }
    let all: Vec<(String, String)> = posts.iter().map(|(c, m)| (c.to_string(), m.to_string())).collect();
    assert_eq!(handed, all);
    assert_eq!(alerts, 1);
}

#[test]
fn deletions_are_ordered_without_repetitions() {
    let p = |c: &str, m: &str| (c.to_string(), m.to_string());
    let sorted = sort_pairs(vec![p("b", "1"), p("a", "2"), p("b", "1"), p("a", "10"), p("a", "2")]);
    assert_eq!(sorted, vec![p("a", "10"), p("a", "2"), p("b", "1")]);
    assert!(sort_pairs(vec![]).is_empty());
}

fn call_text(call: &Option<Call>) -> String {
    match call {
        None => "nothing".to_string(),
        Some(Call::Send { channel_id, text }) => format!("send {channel_id}: {text}"),
        Some(Call::Dm { user_id, text }) => format!("dm {user_id}: {text}"),
        Some(Call::Delete { channel_id, message_id }) => format!("delete {channel_id}/{message_id}"),
    }
}

#[test]
fn one_warning_for_a_message_with_two_links() {
    let mut t = Tracker::default();
    let mut e = Enforcement::begin(&mut t, "u", "c1", "m1", "discord.gg/a discord.gg/b");
    assert_eq!(
        call_text(&e.current()),
        "send c1: ⚠️ <@u> Les liens d'invitation Discord ne sont pas autorisés ici."
    );
    assert_eq!(
        e.settle(&mut t, &None),
        Some("moderation: warned u in c1 (invite link)".to_string())
    );
    assert!(e.current().is_none());
}

#[test]
fn a_warning_that_fails_is_logged() {
    let mut t = Tracker::default();
    let mut e = Enforcement::begin(&mut t, "u", "c1", "m1", "discord.gg/a");
    assert_eq!(
        e.settle(&mut t, &Some("boom".to_string())),
        Some("moderation: warn failed in c1: boom".to_string())
    );
    assert!(e.current().is_none());
}

#[test]
fn nothing_is_enforced_without_links() {
    let mut t = Tracker::default();
    let e = Enforcement::begin(&mut t, "u", "c1", "m1", "bonjour");
    assert!(e.current().is_none());
}

#[test]
fn alert_comes_before_the_deletions() {
    let mut t = Tracker::default();
    let mut first = Enforcement::begin(&mut t, "u", "c2", "m1", "discord.gg/a");
    first.settle(&mut t, &None);
    let mut e = Enforcement::begin(&mut t, "u", "c1", "m2", "discord.gg/a");
    assert_eq!(
        call_text(&e.current()),
        format!("dm {ALERT_USER_ID}: 🚨 <@u> (id u) a posté le lien d'invitation discord.gg/a dans plusieurs salons. Suppression des messages tentée.")
    );
    assert_eq!(
        e.settle(&mut t, &None),
        Some("moderation: alerted operator — u spammed a cross-channel".to_string())
    );
    assert_eq!(call_text(&e.current()), "delete c1/m2");
    assert_eq!(
        e.settle(&mut t, &None),
        Some("moderation: deleted invite message m2 in c1".to_string())
    );
    assert_eq!(call_text(&e.current()), "delete c2/m1");
    assert_eq!(
        e.settle(&mut t, &None),
        Some("moderation: deleted invite message m1 in c2".to_string())
    );
    assert!(e.current().is_none());
}

#[test]
fn failed_deletions_are_reported_once_per_user() {
    let mut t = Tracker::default();
    Enforcement::begin(&mut t, "u", "c1", "m1", "discord.gg/a").settle(&mut t, &None);
    let mut e = Enforcement::begin(&mut t, "u", "c2", "m2", "discord.gg/a");
    assert_eq!(
        e.settle(&mut t, &Some("no DM".to_string())),
        Some("moderation: operator DM failed: no DM".to_string())
    );
    assert_eq!(
        e.settle(&mut t, &Some("403".to_string())),
        Some("moderation: delete of m1 in c1 failed: 403".to_string())
    );
    e.settle(&mut t, &None);
    assert_eq!(
        call_text(&e.current()),
        "send c1: ⚠️ Impossible de supprimer le(s) message(s) d'invitation de <@u> — permission « Gérer les messages » manquante ?"
    );
    assert_eq!(e.settle(&mut t, &None), None);
    assert!(e.current().is_none());
    // The next failure of the same user is not reported again.
    let mut again = Enforcement::begin(&mut t, "u", "c3", "m3", "discord.gg/a");
    assert_eq!(call_text(&again.current()), "delete c3/m3");
    again.settle(&mut t, &Some("403".to_string()));
    assert!(again.current().is_none());
}

#[test]
fn a_notice_that_fails_is_logged() {
    let mut t = Tracker::default();
    Enforcement::begin(&mut t, "u", "c1", "m1", "discord.gg/a").settle(&mut t, &None);
    let mut e = Enforcement::begin(&mut t, "u", "c2", "m2", "discord.gg/a");
    e.settle(&mut t, &None);
    e.settle(&mut t, &None);
    e.settle(&mut t, &Some("403".to_string()));
    assert_eq!(
        e.settle(&mut t, &Some("x".to_string())),
        Some("moderation: delete-failure notice failed in c2: x".to_string())
    );
}

fn event(content: Option<&str>, bot: Option<bool>) -> MessageEvent {
    MessageEvent {
        id: Some("m".to_string()),
        channel_id: Some("c".to_string()),
        guild_id: None,
        content: content.map(|s| s.to_string()),
        timestamp: None,
        author_id: Some("u".to_string()),
        author_username: None,
        author_bot: bot,
        member_nick: None,
    }
}

#[test]
fn links_and_unknown_texts_are_looked_into() {
    let s = inspect_create(&event(Some("discord.gg/a"), None)).expect("a link");
    assert_eq!((s.channel_id, s.message_id, s.user_id), ("c".to_string(), "m".to_string(), "u".to_string()));
    assert_eq!(s.content, "discord.gg/a");
    assert_eq!(inspect_create(&event(None, Some(false))).expect("unknown text").content, "");
    assert!(inspect_create(&event(Some(""), None)).is_some());
    assert!(inspect_create(&event(Some("bonjour"), None)).is_none());
    assert!(inspect_create(&event(Some("discord.gg/a"), Some(true))).is_none());
    let mut anonymous = event(Some("discord.gg/a"), None);
    anonymous.author_id = None;
    assert!(inspect_create(&anonymous).is_none());
}
