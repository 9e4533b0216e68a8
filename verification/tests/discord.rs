use discord_to_insta::discord::{
    authorization, map_status, messages_url, parse_error, percent_encode, reaction_url, read_reply,
    success, Attachment, Author, Embed, EmbedField, Error, Message, User,
};
use serde_json::Value;

const SAMPLE: &str = r#"[
      {
        "id": "111",
        "content": "@everyone\n⏰ RDV ...",
        "timestamp": "2026-04-20T19:45:00.000000+00:00",
        "author": {"id": "42", "username": "bot", "global_name": "BotDisplay"},
        "attachments": [
          {"id": "a1", "url": "https://cdn.discordapp.com/attachments/x/y.png", "filename": "y.png", "content_type": "image/png"}
        ],
        "mentions": [
          {"id": "699543821465419806", "username": "bertrand", "global_name": "Bertrand B"}
        ]
      }
    ]"#;

fn text(v: &Value) -> String {
    v.as_str().expect("text").to_string()
}

fn opt(v: &Value) -> Option<String> {
    v.as_str().map(|s| s.to_string())
}

fn list<T>(v: &Value, f: impl Fn(&Value) -> T) -> Vec<T> {
    v.as_array().map(|items| items.iter().map(f).collect()).unwrap_or_default()
}

fn message(v: &Value) -> Message {
    Message {
        id: text(&v["id"]),
        content: text(&v["content"]),
        timestamp: text(&v["timestamp"]),
        author: Author {
            id: text(&v["author"]["id"]),
            username: text(&v["author"]["username"]),
            global_name: opt(&v["author"]["global_name"]),
        },
        attachments: list(&v["attachments"], |a| Attachment {
            id: text(&a["id"]),
            url: text(&a["url"]),
            filename: text(&a["filename"]),
            content_type: opt(&a["content_type"]),
        }),
        mentions: list(&v["mentions"], |u| User {
            id: text(&u["id"]),
            username: text(&u["username"]),
            global_name: opt(&u["global_name"]),
        }),
        embeds: list(&v["embeds"], |e| Embed {
            title: opt(&e["title"]),
            description: opt(&e["description"]),
            fields: list(&e["fields"], |f| EmbedField {
                name: text(&f["name"]),
                value: text(&f["value"]),
                inline: f["inline"].as_bool().unwrap_or(false),
            }),
        }),
    }
}

fn messages(raw: &str) -> Vec<Message> {
    let v: Value = serde_json::from_str(raw).expect("parse");
    list(&v, message)
}

fn one(raw: &str) -> Message {
    message(&serde_json::from_str(raw).expect("parse"))
}

#[test]
fn parses_canned_message_list() {
    let msgs = messages(SAMPLE);
    assert_eq!(msgs.len(), 1);
    assert_eq!(msgs[0].id, "111");
    assert_eq!(msgs[0].author.display(), "BotDisplay");
    assert_eq!(msgs[0].attachments.len(), 1);
    assert_eq!(msgs[0].mentions[0].id, "699543821465419806");
    assert_eq!(msgs[0].mentions[0].display(), "Bertrand B");
}

#[test]
fn parses_message_without_optional_fields() {
    let raw = r#"[{"id":"1","content":"hi","timestamp":"2026-01-01T00:00:00+00:00","author":{"id":"2","username":"u","global_name":null}}]"#;
    let msgs = messages(raw);
    assert_eq!(msgs[0].author.display(), "u");
    assert!(msgs[0].attachments.is_empty());
    assert!(msgs[0].mentions.is_empty());
}

#[test]
fn percent_encode_emojis() {
    assert_eq!(percent_encode("✅"), "%E2%9C%85");
    assert_eq!(percent_encode("🚫"), "%F0%9F%9A%AB");
    assert_eq!(percent_encode("🤔"), "%F0%9F%A4%94");
}

#[test]
fn percent_encode_preserves_unreserved() {
    assert_eq!(percent_encode("abcXYZ-_.~0189"), "abcXYZ-_.~0189");
}

#[test]
fn synthesized_body_prefers_content() {
    let raw = r#"{"id":"1","content":"hello","timestamp":"2026-01-01T00:00:00+00:00","author":{"id":"2","username":"u","global_name":null}}"#;
    let m = one(raw);
    assert_eq!(m.synthesized_body(), "hello");
}

#[test]
fn synthesized_body_falls_back_to_embed() {
    let raw = r#"{
            "id":"1","content":"","timestamp":"2026-01-01T00:00:00+00:00",
            "author":{"id":"2","username":"u","global_name":null},
            "embeds":[{"title":"Ride","description":"Long desc","fields":[
                {"name":"Distance","value":"20km","inline":true},
                {"name":"D+","value":"170m","inline":true}
            ]}]
        }"#;
    let m = one(raw);
    let body = m.synthesized_body();
    assert!(body.contains("Ride"));
    assert!(body.contains("Long desc"));
    assert!(body.contains("Distance : 20km"));
    assert!(body.contains("D+ : 170m"));
    assert_eq!(body, "Ride\n\nLong desc\n\nDistance : 20km\n\nD+ : 170m");
}

#[test]
fn synthesized_body_empty_on_empty_everything() {
    let raw = r#"{"id":"1","content":"","timestamp":"2026-01-01T00:00:00+00:00","author":{"id":"2","username":"u","global_name":null}}"#;
    let m = one(raw);
    assert_eq!(m.synthesized_body(), "");
}

#[test]
fn empty_parts_of_an_embed_are_left_out() {
    let raw = r#"{"id":"1","content":"","timestamp":"t","author":{"id":"2","username":"u"},
        "embeds":[{"title":"","fields":[{"name":"","value":""}]},{"title":"second"}]}"#;
    assert_eq!(one(raw).synthesized_body(), " : ");
}

#[test]
fn percent_encoding_can_be_undone() {
    for s in ["", "a b", "100%", "é/ü?", "🤔%20", "\u{7f}\u{80}"] {
        let encoded = percent_encode(s);
        assert!(encoded.chars().all(|c| c.is_ascii_alphanumeric() || "-_.~%".contains(c)));
        let mut bytes: Vec<u8> = Vec::new();
        let mut rest = encoded.as_bytes();
        while let Some(&b) = rest.first() {
            if b == b'%' {
                let hex = std::str::from_utf8(&rest[1..3]).unwrap();
                bytes.push(u8::from_str_radix(hex, 16).unwrap());
                rest = &rest[3..];
            } else {
                bytes.push(b);
                rest = &rest[1..];
            }
        }
        assert_eq!(String::from_utf8(bytes).unwrap(), s);
    }
}

#[test]
fn statuses_map_to_errors() {
    let kind = |status: u16| map_status(status, "body".to_string(), 1500).message();
    assert_eq!(kind(401), "Discord rejected the bot token (401). Check DISCORD_BOT_TOKEN.");
    assert_eq!(
        kind(403),
        "Forbidden (403). Bot needs View Channel + Read Message History (fetch) and Add Reactions (auto-react)."
    );
    assert_eq!(kind(404), "Channel not found (404). Wrong channel ID?");
    assert_eq!(kind(429), "Rate limited. Retry in 1500ms.");
    assert_eq!(kind(500), "Discord HTTP 500: body");
    assert_eq!(Error::Transport("dns".to_string()).message(), "Network error: dns");
    assert_eq!(
        parse_error("bad", "{}").message(),
        "Failed to parse Discord response: bad — body was: {}"
    );
}

#[test]
fn replies_of_success_give_their_body() {
    for status in [200u16, 204, 299] {
        assert!(success(status));
        assert_eq!(read_reply(status, "x".to_string(), 0).ok(), Some("x".to_string()));
    }
    for status in [0u16, 199, 300, 401, 500] {
        assert!(!success(status));
        assert!(read_reply(status, "x".to_string(), 0).is_err());
    }
}

#[test]
fn request_urls() {
    assert_eq!(
        messages_url("42", 50),
        "https://discord.com/api/v10/channels/42/messages?limit=50"
    );
    assert!(messages_url("42", 0).ends_with("?limit=1"));
    assert!(messages_url("42", 101).ends_with("?limit=100"));
    assert_eq!(
        reaction_url("1", "2", "✅"),
        "https://discord.com/api/v10/channels/1/messages/2/reactions/%E2%9C%85/@me"
    );
    assert_eq!(authorization("abc"), "Bot abc");
}

#[test]
fn reserved_bytes_become_capital_hex() {
    assert_eq!(percent_encode("a %/"), "a%20%25%2F");
}
