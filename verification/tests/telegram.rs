use discord_to_insta::telegram::{
    answer_body, check_status, edit_body, image_name, next_offset, parse_error, preview_body, received_updates,
    sent_message_id, updates_body, url, CallbackChat, CallbackFrom, CallbackMessage, CallbackQuery,
    Error, Update,
};
use serde_json::Value;

fn opt(v: &Value) -> Option<String> {
    v.as_str().map(|s| s.to_string())
}

fn present<T>(v: &Value, f: impl Fn(&Value) -> T) -> Option<T> {
    if v.is_null() { None } else { Some(f(v)) }
}

fn update(raw: &str) -> Update {
    let v: Value = serde_json::from_str(raw).expect("parse");
    Update {
        update_id: v["update_id"].as_i64().expect("parse"),
        callback_query: present(&v["callback_query"], |q| CallbackQuery {
            id: opt(&q["id"]).expect("parse"),
            data: opt(&q["data"]),
            from: present(&q["from"], |f| CallbackFrom {
                username: opt(&f["username"]),
                first_name: opt(&f["first_name"]),
            }),
            message: present(&q["message"], |m| CallbackMessage {
                message_id: m["message_id"].as_i64().expect("parse"),
                chat: CallbackChat { id: m["chat"]["id"].as_i64().expect("parse") },
            }),
        }),
    }
}

#[test]
fn parses_callback_query_update() {
    let raw = r#"{
            "update_id": 10000,
            "callback_query": {
                "id": "cb_abc",
                "data": "approve:1234567890",
                "from": {"username": "gaspard", "first_name": "Gaspard"},
                "message": {
                    "message_id": 42,
                    "chat": {"id": -1001234567890}
                }
            }
        }"#;
    let u = update(raw);
    let cb = u.callback_query.expect("callback");
    assert_eq!(cb.id, "cb_abc");
    assert_eq!(cb.data.as_deref(), Some("approve:1234567890"));
    assert_eq!(cb.from.as_ref().map(|f| f.display()), Some("gaspard".to_string()));
    assert_eq!(cb.message.as_ref().map(|m| m.message_id), Some(42));
    assert_eq!(cb.message.as_ref().map(|m| m.chat.id), Some(-1001234567890));
}

#[test]
fn parses_non_callback_update_silently() {
    let raw = r#"{"update_id": 1, "message": {"ignored": true}}"#;
    let u = update(raw);
    assert!(u.callback_query.is_none());
}

#[test]
fn callback_from_display_prefers_username() {
    let f = CallbackFrom {
        username: Some("gas".into()),
        first_name: Some("Gaspard".into()),
    };
    assert_eq!(f.display(), "gas");
    let f = CallbackFrom {
        username: None,
        first_name: Some("Gaspard".into()),
    };
    assert_eq!(f.display(), "Gaspard");
}

#[test]
fn callback_from_without_names() {
    assert_eq!(CallbackFrom { username: None, first_name: None }.display(), "?");
}

#[test]
fn preview_carries_the_caption_and_two_buttons() {
    let body: Value = serde_json::from_str(&preview_body(-5, "a \"b\"\n*c*", "77")).expect("JSON");
    assert_eq!(body["chat_id"].as_i64(), Some(-5));
    assert_eq!(
        body["text"].as_str(),
        Some("📬 Aperçu à valider avant publication Instagram :\n\na \"b\"\n*c*")
    );
    assert_eq!(body["disable_web_page_preview"].as_bool(), Some(true));
    let row = &body["reply_markup"]["inline_keyboard"][0];
    assert_eq!(row[0]["text"].as_str(), Some("✅ Publier sur Instagram"));
    assert_eq!(row[0]["callback_data"].as_str(), Some("approve:77"));
    assert_eq!(row[1]["text"].as_str(), Some("❌ Annuler"));
    assert_eq!(row[1]["callback_data"].as_str(), Some("reject:77"));
    assert!(row[2].is_null());
}

#[test]
fn other_request_bodies() {
    assert_eq!(answer_body("cb\"1", &None), r#"{"callback_query_id":"cb\"1"}"#);
    assert_eq!(
        answer_body("cb", &Some("ok".to_string())),
        r#"{"callback_query_id":"cb","text":"ok"}"#
    );
    assert_eq!(
        answer_body("a\u{1}\u{8}\t\n\u{b}\u{c}\r\u{1f} /\\\u{7f}é", &None),
        "{\"callback_query_id\":\"a\\u0001\\b\\t\\n\\u000b\\f\\r\\u001f /\\\\\u{7f}é\"}"
    );
    assert_eq!(
        edit_body(-7, 12, "fait"),
        r#"{"chat_id":-7,"message_id":12,"reply_markup":{"inline_keyboard":[]},"text":"fait"}"#
    );
    assert_eq!(updates_body(None), r#"{"allowed_updates":["callback_query"],"timeout":25}"#);
    assert_eq!(
        updates_body(Some(10001)),
        r#"{"allowed_updates":["callback_query"],"offset":10001,"timeout":25}"#
    );
    assert_eq!(url("123:abc", "sendMessage"), "https://api.telegram.org/bot123:abc/sendMessage");
}

#[test]
fn replies_are_told_apart() {
    assert_eq!(check_status(200, "x".to_string()).ok(), Some("x".to_string()));
    assert_eq!(
        check_status(502, "bad gateway".to_string()).unwrap_err().message(),
        "Telegram HTTP 502: bad gateway"
    );
    assert_eq!(sent_message_id(true, &None, Some(42)).ok(), Some(42));
    assert_eq!(sent_message_id(true, &None, None).ok(), Some(0));
    assert_eq!(
        sent_message_id(false, &Some("chat not found".to_string()), Some(1)).unwrap_err().message(),
        "Telegram API error: chat not found"
    );
    assert_eq!(
        sent_message_id(false, &None, None).unwrap_err().message(),
        "Telegram API error: "
    );
    let one = vec![Update { update_id: 3, callback_query: None }];
    assert_eq!(received_updates(true, &None, Some(one)).unwrap()[0].update_id, 3);
    assert!(received_updates(true, &None, None).unwrap().is_empty());
    assert!(matches!(received_updates(false, &None, None), Err(Error::Api { .. })));
    assert_eq!(
        Error::Transport("tls".to_string()).message(),
        "Telegram network error: tls"
    );
    assert_eq!(
        parse_error("eof", "{").message(),
        "Telegram response parse error: eof — body was: {"
    );
}

#[test]
fn images_without_a_name_get_one() {
    assert_eq!(image_name(&Some("feed_20.jpg".to_string())), "feed_20.jpg");
    assert_eq!(image_name(&None), "image.png");
}

#[test]
fn the_offset_moves_behind_the_greatest_id() {
    let us = |ids: &[i64]| -> Vec<Update> {
        ids.iter().map(|id| Update { update_id: *id, callback_query: None }).collect()
    };
    assert_eq!(next_offset(&us(&[]), None), None);
    assert_eq!(next_offset(&us(&[]), Some(5)), Some(5));
    assert_eq!(next_offset(&us(&[7, 9, 8]), Some(5)), Some(10));
    assert_eq!(next_offset(&us(&[10000]), None), Some(10001));
    assert_eq!(next_offset(&us(&[i64::MAX]), None), Some(i64::MAX));
}
