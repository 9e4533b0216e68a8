use discord_to_insta::gateway::{
    close_reason, fatal, guild_name, handle_message_create, handle_message_delete,
    handle_message_update, heartbeat_payload, identify_payload, log_create_to_db, log_steps,
    next_backoff, on_close, outcome_line, parse_id, read_message_event, ready_line, Command, ConnectOutcome,
    Input, LogStep, Phase, Session,
};
use serde_json::Value;

fn told(c: &Command) -> String {
    match c {
        Command::Read => "read".to_string(),
        Command::Identify { payload, heartbeat_ms } => format!("identify {heartbeat_ms} {payload}"),
        Command::Beat { payload } => format!("beat {payload}"),
        Command::Ready { user, app_id } => format!("ready {user} {app_id}"),
        Command::Create => "create".to_string(),
        Command::Update => "update".to_string(),
        Command::Delete => "delete".to_string(),
        Command::Interaction => "interaction".to_string(),
        Command::Finish(o) => format!("finish {}", ended(o)),
    }
}

fn ended(o: &ConnectOutcome) -> String {
    match o {
        ConnectOutcome::Disconnected(r) => format!("disconnected {r}"),
        ConnectOutcome::CleanRestart => "restart".to_string(),
        ConnectOutcome::Fatal(r) => format!("fatal {r}"),
        ConnectOutcome::Stopped => "stopped".to_string(),
    }
}

fn say(s: &mut Session, text: &str) -> String {
    told(&s.handle(&Input::Text(text.to_string()), "tok", false))
}

fn live() -> Session {
    let mut s = Session::new();
    assert!(say(&mut s, r#"{"op":10,"d":{"heartbeat_interval":41250}}"#).starts_with("identify"));
    s
}

#[test]
fn hello_is_answered_with_the_identification() {
    let mut s = Session::new();
    assert!(s.phase == Phase::Hello);
    assert_eq!(say(&mut s, "not json"), "read");
    let got = say(&mut s, r#"{"op":10,"d":{"heartbeat_interval":41250}}"#);
    assert_eq!(
        got,
        r#"identify 41250 {"d":{"intents":512,"properties":{"browser":"discord_to_insta","device":"discord_to_insta","os":"linux"},"token":"tok"},"op":2}"#
    );
    assert!(s.phase == Phase::Live);
}

#[test]
fn identification_asks_for_content_only_with_a_database() {
    let v: Value = serde_json::from_str(&identify_payload("a\"b", true)).expect("JSON");
    assert_eq!(v["d"]["intents"].as_u64(), Some((1 << 9) | (1 << 15)));
    assert_eq!(v["d"]["token"].as_str(), Some("a\"b"));
    assert_eq!(v["op"].as_u64(), Some(2));
    let v: Value = serde_json::from_str(&identify_payload("t", false)).expect("JSON");
    assert_eq!(v["d"]["intents"].as_u64(), Some(1 << 9));
}

#[test]
fn failures_before_hello() {
    let mut s = Session::new();
    assert_eq!(
        told(&s.handle(&Input::DialFailed("dns".to_string()), "t", false)),
        "finish disconnected dial: dns"
    );
    assert_eq!(
        told(&s.handle(&Input::Ended, "t", false)),
        "finish disconnected closed before HELLO"
    );
    assert_eq!(
        told(&s.handle(&Input::Failed("x".to_string()), "t", false)),
        "finish disconnected closed before HELLO"
    );
    assert_eq!(say(&mut s, r#"{"op":10,"d":{}}"#), "finish disconnected malformed HELLO");
    let mut s = Session::new();
    let close = Input::Closed(Some((4004, "bad token".to_string())));
    assert_eq!(told(&s.handle(&close, "t", false)), "read");
    assert_eq!(told(&s.handle(&Input::Closed(None), "t", false)), "read");
}

#[test]
fn failures_of_a_live_connection() {
    let mut s = live();
    assert_eq!(
        told(&s.handle(&Input::IdentifyFailed("io".to_string()), "t", false)),
        "finish disconnected identify: io"
    );
    assert_eq!(
        told(&s.handle(&Input::Failed("reset".to_string()), "t", false)),
        "finish disconnected ws: reset"
    );
    assert_eq!(told(&s.handle(&Input::Ended, "t", false)), "finish disconnected stream ended");
    assert_eq!(told(&s.handle(&Input::StopRequested, "t", false)), "finish stopped");
    assert_eq!(told(&s.handle(&Input::Unreadable, "t", false)), "read");
    assert_eq!(told(&s.handle(&Input::Closed(None), "t", false)), "finish disconnected closed");
    let bad = Input::Closed(Some((4004, "Authentication failed.".to_string())));
    assert_eq!(
        told(&s.handle(&bad, "t", false)),
        "finish fatal closed: 4004 Authentication failed."
    );
    let away = Input::Closed(Some((1001, "bye".to_string())));
    assert_eq!(told(&s.handle(&away, "t", false)), "finish disconnected closed: 1001 bye");
}

#[test]
fn fatal_close_codes() {
    for code in 0..=5000u16 {
        let expected = matches!(code, 4004 | 4010 | 4011 | 4012 | 4013 | 4014);
        assert_eq!(fatal(code), expected, "{code}");
        let frame = Some((code, "r".to_string()));
        assert_eq!(matches!(on_close(&frame), ConnectOutcome::Fatal(_)), expected);
    }
    assert_eq!(close_reason(&None), "closed");
}

#[test]
fn operations_of_a_live_connection() {
    let mut s = live();
    assert_eq!(say(&mut s, r#"{"op":1}"#), r#"beat {"d":null,"op":1}"#);
    assert_eq!(say(&mut s, r#"{"op":11,"s":7}"#), "read");
    assert_eq!(say(&mut s, r#"{"op":1}"#), r#"beat {"d":7,"op":1}"#);
    assert_eq!(say(&mut s, r#"{"op":1,"s":9}"#), r#"beat {"d":9,"op":1}"#);
    assert_eq!(s.seq, Some(9));
    assert_eq!(say(&mut s, r#"{"op":7}"#), "finish restart");
    assert_eq!(say(&mut s, r#"{"op":9,"d":false}"#), "finish restart");
    assert_eq!(say(&mut s, "[1,2]"), "read");
    assert_eq!(say(&mut s, "{"), "read");
    assert_eq!(say(&mut s, r#"{"op":"0"}"#), "read");
}

#[test]
fn events_of_a_live_connection() {
    let mut s = live();
    let event = |t: &str| format!(r#"{{"op":0,"s":1,"t":"{t}","d":{{}}}}"#);
    assert_eq!(say(&mut s, &event("MESSAGE_CREATE")), "create");
    assert_eq!(say(&mut s, &event("MESSAGE_UPDATE")), "update");
    assert_eq!(say(&mut s, &event("MESSAGE_DELETE")), "delete");
    assert_eq!(say(&mut s, &event("INTERACTION_CREATE")), "interaction");
    assert_eq!(say(&mut s, &event("TYPING_START")), "read");
    assert_eq!(say(&mut s, &event("READY")), "ready ? ");
    let ready = r#"{"op":0,"t":"READY","d":{"user":{"username":"bot"},"application":{"id":"77"}}}"#;
    assert_eq!(say(&mut s, ready), "ready bot 77");
    assert_eq!(say(&mut s, r#"{"op":0}"#), "read");
}

#[test]
fn heartbeats_carry_the_sequence_number() {
    assert_eq!(heartbeat_payload(None), r#"{"d":null,"op":1}"#);
    assert_eq!(heartbeat_payload(Some(u64::MAX)), r#"{"d":18446744073709551615,"op":1}"#);
}

#[test]
fn ids_keep_their_bits() {
    assert_eq!(parse_id("981806074233507880"), Some(981806074233507880));
    assert_eq!(parse_id("9223372036854775807"), Some(i64::MAX));
    assert_eq!(parse_id("9223372036854775808"), Some(i64::MIN));
    assert_eq!(parse_id("18446744073709551615"), Some(-1));
    assert_eq!(parse_id("18446744073709551616"), None);
    assert_eq!(parse_id("-1"), None);
    assert_eq!(parse_id(""), None);
}

const CREATE: &str = r#"{"op":0,"t":"MESSAGE_CREATE","s":3,"d":{
    "id":"10","channel_id":"20","guild_id":"30","content":"salut",
    "timestamp":"2026-04-20T19:45:00.500000+02:00",
    "author":{"id":"40","username":"ana","bot":false},"member":{"nick":"Nana"}}}"#;

#[test]
fn message_events_are_read() {
    let e = read_message_event(CREATE);
    let r = log_create_to_db(&e).expect("a record");
    assert_eq!((r.message_id, r.channel_id, r.user_id), (10, 20, 40));
    assert_eq!((r.username.as_str(), r.content.as_str()), ("ana", "salut"));
    assert_eq!((r.guild_id, r.guild.as_deref(), r.nickname.as_deref()), (Some(30), Some("30"), Some("Nana")));
    assert_eq!(r.created_at, Some((1776707100, 500_000_000)));
}

#[test]
fn what_is_missing_from_a_message_event_is_made_up_for() {
    let e = read_message_event(r#"{"d":{"id":"1","channel_id":"2","author":{"id":"3"},"guild_id":"x","timestamp":"yesterday"}}"#);
    let r = log_create_to_db(&e).expect("a record");
    assert_eq!((r.username.as_str(), r.content.as_str()), ("", ""));
    assert_eq!((r.guild_id, r.guild, r.nickname, r.created_at), (None, None, None, None));
}

#[test]
fn bots_and_unreadable_ids_are_not_logged() {
    let bot = r#"{"d":{"id":"1","channel_id":"2","author":{"id":"3","bot":true}}}"#;
    assert!(log_create_to_db(&read_message_event(bot)).is_none());
    let bad = r#"{"d":{"id":"one","channel_id":"2","author":{"id":"3"}}}"#;
    assert!(log_create_to_db(&read_message_event(bad)).is_none());
    assert!(log_create_to_db(&read_message_event("nonsense")).is_none());
}

#[test]
fn new_messages_trigger_the_poller_in_the_watched_channel() {
    let e = read_message_event(CREATE);
    let plan = handle_message_create(&e, "20", true, true);
    assert!(plan.record.is_some());
    assert!(plan.suspect.is_none());
    assert_eq!(plan.trigger, Some("gateway: new message 10 — triggering fetch".to_string()));
    let plan = handle_message_create(&e, "21", false, false);
    assert!(plan.record.is_none() && plan.suspect.is_none() && plan.trigger.is_none());
    let empty = read_message_event("{}");
    assert!(handle_message_create(&empty, "", true, true).trigger.is_none());
}

#[test]
fn edits_are_logged_and_watched() {
    let e = read_message_event(CREATE);
    let plan = handle_message_update(&e, "20", true);
    let edit = plan.edit.expect("an edit");
    assert_eq!((edit.message_id, edit.channel_id, edit.guild_id), (10, 20, Some(30)));
    assert_eq!(edit.content, "salut");
    assert_eq!(plan.watched.as_deref(), Some("10"));
    assert_eq!(plan.line.as_deref(), Some("gateway: edit detected on 10"));
    let bare = read_message_event(r#"{"d":{"id":"10","channel_id":"20"}}"#);
    let plan = handle_message_update(&bare, "21", true);
    assert!(plan.edit.is_none() && plan.watched.is_none() && plan.line.is_none());
    assert!(handle_message_update(&e, "20", false).edit.is_none());
}

#[test]
fn deletions_are_logged() {
    let e = read_message_event(r#"{"d":{"id":"10","channel_id":"20"}}"#);
    let plan = handle_message_delete(&e, true).expect("a deletion");
    assert_eq!((plan.message_id, plan.channel_id, plan.guild_id), (10, 20, None));
    assert_eq!(plan.line, "gateway: delete logged 10");
    assert!(handle_message_delete(&e, false).is_none());
    assert!(handle_message_delete(&read_message_event("{}"), true).is_none());
}

#[test]
fn guilds_without_a_name_get_a_placeholder() {
    assert_eq!(guild_name(&Some("Mayo".to_string()), "30"), "Mayo");
    assert_eq!(guild_name(&None, "30"), "guild:30");
}

#[test]
fn pauses_double_up_to_a_minute() {
    let lost = ConnectOutcome::Disconnected("x".to_string());
    let mut ms = 1000;
    let mut seen = Vec::new();
    for _ in 0..8 {
        ms = next_backoff(ms, &lost).expect("reconnects");
        seen.push(ms);
    }
    assert_eq!(seen, vec![2000, 4000, 8000, 16000, 32000, 60000, 60000, 60000]);
    assert_eq!(next_backoff(60000, &ConnectOutcome::CleanRestart), Some(1000));
    assert_eq!(next_backoff(u64::MAX, &lost), Some(60000));
    assert_eq!(next_backoff(1000, &ConnectOutcome::Stopped), None);
    assert_eq!(next_backoff(1000, &ConnectOutcome::Fatal("x".to_string())), None);
}

#[test]
fn gateway_lines() {
    assert_eq!(
        outcome_line(&ConnectOutcome::Disconnected("ws: x".to_string())),
        Some("gateway: ws: x".to_string())
    );
    assert_eq!(
        outcome_line(&ConnectOutcome::Fatal("closed".to_string())),
        Some("gateway: fatal, not reconnecting — closed".to_string())
    );
    assert_eq!(outcome_line(&ConnectOutcome::Stopped), Some("gateway: stopped".to_string()));
    assert_eq!(outcome_line(&ConnectOutcome::CleanRestart), None);
    assert_eq!(ready_line("bot"), "gateway: READY as bot");
}

#[test]
fn a_live_connection_does_not_identify_again() {
    let mut s = live();
    assert_eq!(say(&mut s, r#"{"op":10,"d":{"heartbeat_interval":41250}}"#), "read");
    assert!(s.phase == Phase::Live);
}

fn logged(document: &str) -> Vec<String> {
    let record = log_create_to_db(&read_message_event(document)).expect("a record");
    log_steps(&record)
        .into_iter()
        .map(|step| match step {
            LogStep::User { user_id, username } => format!("user {user_id} {username}"),
            LogStep::Guild { guild_id, guild } => format!("guild {guild_id} {guild}"),
            LogStep::Member { user_id, guild_id, nickname } => {
                format!("member {user_id} {guild_id} {nickname:?}")
            }
            LogStep::Message { message_id, user_id, channel_id, guild_id, content, created_at } => {
                format!("message {message_id} {user_id} {channel_id} {guild_id:?} {content} {created_at:?}")
            }
        })
        .collect()
}

#[test]
fn a_message_is_logged_after_its_author_and_guild() {
    assert_eq!(
        logged(CREATE),
        vec![
            "user 40 ana",
            "guild 30 30",
            "member 40 30 Some(\"Nana\")",
            "message 10 40 20 Some(30) salut Some((1776707100, 500000000))",
        ]
    );
    let direct = r#"{"d":{"id":"1","channel_id":"2","author":{"id":"3"}}}"#;
    assert_eq!(logged(direct), vec!["user 3 ", "message 1 3 2 None  None"]);
}
