use discord_to_insta::discord::{Author, Error, Message, User};
use discord_to_insta::poller::PollerEvent;
use discord_to_insta::window::{
    display_path, emojis_joined, image_note, message_label, message_preview, pick_image,
    short_timestamp, App, Fetched, ImageNote, Status, DEFAULT_CHANNEL_ID,
};

fn app() -> App {
    App::new("tok".to_string(), None)
}

fn user(id: &str) -> User {
    User { id: id.to_string(), username: "u".to_string(), global_name: None }
}

fn message(id: &str, content: &str, mentions: &[&str]) -> Message {
    Message {
        id: id.to_string(),
        content: content.to_string(),
        timestamp: "2026-04-20T19:45:00+00:00".to_string(),
        author: Author { id: "a".to_string(), username: "u".to_string(), global_name: Some("Ana".to_string()) },
        attachments: vec![],
        mentions: mentions.iter().map(|id| user(id)).collect(),
        embeds: vec![],
    }
}

fn rows(a: &App) -> Vec<(&str, &str)> {
    a.user_map_rows.iter().map(|(x, y)| (x.as_str(), y.as_str())).collect()
}

#[test]
fn a_new_window() {
    let a = App::new("t".to_string(), Some("5".to_string()));
    assert_eq!(a.channel_id, DEFAULT_CHANNEL_ID);
    assert_eq!(rows(&a), vec![("", "")]);
    assert!(matches!(a.fetch_status, Status::Idle));
    assert_eq!(a.last_seen_label(), "last seen: 5");
    assert_eq!(app().last_seen_label(), "last seen: (none — first run)");
}

#[test]
fn handles_are_trimmed_and_later_rows_win() {
    let mut a = app();
    a.user_map_rows = vec![
        (" 1 ".to_string(), " @@ana ".to_string()),
        ("2".to_string(), "   ".to_string()),
        ("".to_string(), "x".to_string()),
        ("3".to_string(), "old".to_string()),
        ("3".to_string(), "@new".to_string()),
        ("4".to_string(), "@".to_string()),
    ];
    let map = a.user_map();
    assert_eq!(map.get("1"), Some(&"ana".to_string()));
    assert_eq!(map.get("2"), None);
    assert_eq!(map.get(""), None);
    assert_eq!(map.get("3"), Some(&"new".to_string()));
    assert_eq!(map.get("4"), Some(&"".to_string()));
    assert_eq!(map.entries().len(), 3);
}

#[test]
fn a_fetch_needs_a_token_and_a_channel() {
    let mut a = app();
    a.token = "  ".to_string();
    assert!(a.start_fetch().is_none());
    assert!(matches!(&a.fetch_status, Status::Error(e) if e == "Missing bot token (set DISCORD_BOT_TOKEN or paste it above)."));
    a.token = " tok ".to_string();
    a.channel_id = "".to_string();
    assert!(a.start_fetch().is_none());
    assert!(matches!(&a.fetch_status, Status::Error(e) if e == "Missing channel ID."));
    a.channel_id = " 42\n".to_string();
    let c = a.start_fetch().expect("starts");
    assert_eq!((c.token.as_str(), c.channel_id.as_str()), ("tok", "42"));
    assert!(matches!(a.fetch_status, Status::Fetching));
    assert!(a.start_fetch().is_none());
}

#[test]
fn a_fetch_ends() {
    let mut a = app();
    a.poll_fetch(Fetched::Messages(vec![message("1", "x", &[]), message("2", "y", &[])]));
    assert!(matches!(&a.fetch_status, Status::Done(m) if m == "fetched 2 messages"));
    assert_eq!(a.messages.len(), 2);
    a.poll_fetch(Fetched::Failed(Error::NotFound));
    assert!(matches!(&a.fetch_status, Status::Error(m) if m == "Channel not found (404). Wrong channel ID?"));
    a.poll_fetch(Fetched::Disconnected);
    assert!(matches!(&a.fetch_status, Status::Error(m) if m == "Fetch thread disconnected."));
    assert_eq!(a.messages.len(), 2);
}

#[test]
fn loading_a_message_seeds_its_mentions_once() {
    let mut a = app();
    a.user_map_rows = vec![("7".to_string(), "seven".to_string())];
    a.messages = vec![message("1", "un", &["7", "8", "8", "9"]), message("2", "deux", &[])];
    a.load_selected("1");
    assert_eq!(a.raw, "un");
    assert_eq!(a.selected_message_id.as_deref(), Some("1"));
    assert_eq!(rows(&a), vec![("7", "seven"), ("8", ""), ("9", "")]);
    a.load_selected("1");
    assert_eq!(rows(&a).len(), 3);
    a.load_selected("absent");
    assert_eq!(a.selected_message_id.as_deref(), Some("1"));
    a.load_selected("2");
    assert_eq!((a.raw.as_str(), rows(&a).len()), ("deux", 3));
}

#[test]
fn rows_are_added_and_removed() {
    let mut a = app();
    a.add_row();
    a.user_map_rows[1] = ("1".to_string(), "x".to_string());
    a.remove_row(0);
    assert_eq!(rows(&a), vec![("1", "x")]);
}

#[test]
fn auto_reactor_is_switched_on_and_off() {
    let mut a = app();
    a.token = "".to_string();
    assert!(a.start_poller().is_none());
    assert_eq!(a.poller_log.back().unwrap(), "cannot start auto-react: missing bot token");
    a.token = "t".to_string();
    a.channel_id = " ".to_string();
    assert!(a.start_poller().is_none());
    assert_eq!(a.poller_log.back().unwrap(), "cannot start auto-react: missing channel ID");
    a.channel_id = "42".to_string();
    assert!(!a.stop_poller());
    assert!(a.start_poller().is_some());
    assert_eq!(
        a.poller_log.back().unwrap(),
        "auto-react started (polling every 30s, emojis: ✅ 🚫 🤔)"
    );
    assert!(a.start_poller().is_none());
    assert!(a.stop_poller());
    assert!(!a.poller && a.listening);
    assert_eq!(a.poller_log.back().unwrap(), "auto-react stopping…");
    a.handle_poller_event(&PollerEvent::Stopped);
    assert!(!a.listening);
    assert_eq!(a.poller_log.back().unwrap(), "auto-react stopped");
    a.poller_ended();
    assert_eq!(a.poller_log.back().unwrap(), "auto-react thread ended");
}

#[test]
fn events_move_the_newest_message_seen() {
    let mut a = app();
    a.handle_poller_event(&PollerEvent::Bootstrap { last_id: "5".to_string() });
    assert_eq!(a.last_seen_id.as_deref(), Some("5"));
    assert_eq!(
        a.poller_log.back().unwrap(),
        "bootstrap: recorded newest message 5 (no retroactive reactions)"
    );
    a.handle_poller_event(&PollerEvent::Reacted { message_id: "6".to_string(), emoji: "✅".to_string() });
    assert_eq!(a.last_seen_id.as_deref(), Some("6"));
    assert_eq!(a.poller_log.back().unwrap(), "reacted ✅ on 6");
    a.handle_poller_event(&PollerEvent::NoNewMessages);
    assert_eq!(a.poller_log.len(), 2);
    a.handle_poller_event(&PollerEvent::Error("x".to_string()));
    assert_eq!(a.poller_log.back().unwrap(), "error: x");
    assert_eq!(a.last_seen_id.as_deref(), Some("6"));
}

#[test]
fn the_log_keeps_twenty_lines() {
    let mut a = app();
    for n in 0..25 {
        a.push_log(n.to_string());
    }
    assert_eq!(a.poller_log.len(), 20);
    assert_eq!(a.poller_log.front().unwrap(), "5");
    assert_eq!(a.poller_log.back().unwrap(), "24");
}

#[test]
fn the_caption_uses_the_handles() {
    let mut a = app();
    a.raw = "@everyone Hi <@1>".to_string();
    a.user_map_rows = vec![("1".to_string(), "@ana".to_string())];
    let caption = a.caption();
    assert_eq!(caption, "Hi @ana");
    a.copied(&caption);
    assert_eq!(a.last_copy_status.as_deref(), Some("copied 7 chars"));
    a.copied("✅é");
    assert_eq!(a.last_copy_status.as_deref(), Some("copied 2 chars"));
}

fn names(items: &[&str]) -> Vec<String> {
    items.iter().map(|s| s.to_string()).collect()
}

#[test]
fn the_image_is_picked_by_distance() {
    let files = names(&["b_20.png", "a_20.png", "a_25.png"]);
    match pick_image("Distance : 19,6 km", &files) {
        ImageNote::Found { text, name } => {
            assert_eq!(name, "a_20.png");
            assert_eq!(text, "✓ 20 km → a_20.png");
        }
        _ => panic!("an image"),
    }
    match pick_image("Distance : 30km", &files) {
        ImageNote::Missing { text } => assert_eq!(
            text,
            "⚠ 30 km detected but no image found in images/ (expected *_30.png)"
        ),
        _ => panic!("no image"),
    }
    match pick_image("rien", &files) {
        ImageNote::NoDistance { text } => assert_eq!(
            text,
            "(no distance detected — caption must contain 'Distance : Nkm')"
        ),
        _ => panic!("no distance"),
    }
    assert!(matches!(image_note(None, &Some("x".to_string())), ImageNote::NoDistance { .. }));
}

#[test]
fn previews_are_one_short_line() {
    assert_eq!(message_preview("  salut \r\nsuite"), "salut");
    assert_eq!(message_preview(""), "");
    assert_eq!(message_preview("\nsuite"), "");
    let long = "é".repeat(121);
    assert_eq!(message_preview(&"é".repeat(120)), "é".repeat(120));
    assert_eq!(message_preview(&long), format!("{}…", "é".repeat(120)));
}

#[test]
fn list_entries() {
    assert_eq!(short_timestamp("2026-04-20T19:45:00"), "2026-04-20");
    assert_eq!(short_timestamp("soon"), "soon");
    assert_eq!(message_label(&message("1", "un\ndeux", &[])), "2026-04-20  Ana\nun");
    assert_eq!(emojis_joined(), "✅ 🚫 🤔");
    assert_eq!(display_path(&Some("a.png".to_string()), "/x/a.png"), "a.png");
    assert_eq!(display_path(&None, "/x/.."), "/x/..");
}
