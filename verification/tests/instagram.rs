use discord_to_insta::instagram::{
    check_response, media_url, object_url, parse_error, publish_url, ContainerWait, Error, Wait,
};
use serde_json::Value;

fn opt(v: &Value) -> Option<String> {
    v.as_str().map(|s| s.to_string())
}

#[test]
fn parses_container_status() {
    let raw = r#"{"status_code":"FINISHED","status":"Finished","id":"x"}"#;
    let p: Value = serde_json::from_str(raw).unwrap();
    assert_eq!(opt(&p["status_code"]).as_deref(), Some("FINISHED"));
    let mut wait = ContainerWait::new();
    assert!(matches!(wait.observe(&opt(&p["status_code"]), &opt(&p["status"])), Wait::Finished));
}

#[test]
fn parses_graph_error_envelope() {
    let raw = r#"{"error":{"message":"Invalid OAuth access token","code":190}}"#;
    let e: Value = serde_json::from_str(raw).unwrap();
    let message = opt(&e["error"]["message"]);
    match check_response(400, raw.to_string(), &message) {
        Err(Error::Api { message }) => assert_eq!(message, "Invalid OAuth access token"),
        other => panic!("{other:?}"),
    }
}

#[test]
fn responses_are_told_apart() {
    assert_eq!(check_response(200, "ok".to_string(), &None).ok(), Some("ok".to_string()));
    assert_eq!(
        check_response(500, "oops".to_string(), &None).unwrap_err().message(),
        "Instagram HTTP 500: oops"
    );
    assert_eq!(
        check_response(400, "x".to_string(), &Some("no".to_string())).unwrap_err().message(),
        "Instagram API error: no"
    );
    assert_eq!(Error::Transport("dns".to_string()).message(), "Instagram network error: dns");
    assert_eq!(
        parse_error("eof", "{").message(),
        "Instagram response parse error: eof — body: {"
    );
}

#[test]
fn a_container_that_never_finishes_is_stuck_after_twenty_questions() {
    let mut wait = ContainerWait::new();
    let code = Some("IN_PROGRESS".to_string());
    for n in 1..=20 {
        match wait.observe(&code, &None) {
            Wait::Pause => assert!(n < 20),
            Wait::Stuck(e) => {
                assert_eq!(n, 20);
                assert_eq!(
                    e.message(),
                    "Instagram media container never reached FINISHED (last: IN_PROGRESS / ) — the image URL may be unreachable from Meta's servers, or the caption may be rejected."
                );
            }
            Wait::Finished => panic!("not finished"),
        }
    }
}

#[test]
fn a_container_that_fails_is_stuck_at_once() {
    for code in ["ERROR", "EXPIRED"] {
        let mut wait = ContainerWait::new();
        assert!(matches!(wait.observe(&None, &None), Wait::Pause));
        match wait.observe(&Some(code.to_string()), &Some("why".to_string())) {
            Wait::Stuck(Error::ContainerStuck { status_code, status }) => {
                assert_eq!(status_code, code);
                assert_eq!(status, "why");
            }
            _ => panic!("stuck"),
        }
    }
}

#[test]
fn a_container_may_finish_at_the_last_question() {
    let mut wait = ContainerWait::new();
    for _ in 0..19 {
        assert!(matches!(wait.observe(&None, &None), Wait::Pause));
    }
    assert!(matches!(wait.observe(&Some("FINISHED".to_string()), &None), Wait::Finished));
}

#[test]
fn graph_urls() {
    assert_eq!(object_url("9"), "https://graph.facebook.com/v21.0/9");
    assert_eq!(media_url("me"), "https://graph.facebook.com/v21.0/me/media");
    assert_eq!(publish_url("me"), "https://graph.facebook.com/v21.0/me/media_publish");
}
