use discord_to_insta::discord::{Author, Message};
use discord_to_insta::poller::{
    batch_event, bootstrap, bootstrap_event, new_messages, plan, reaction_emoji, save_error, Batch, Cycle,
    PollerEvent, Step,
};
use discord_to_insta::state::AppState;

fn message(id: &str) -> Message {
    Message {
        id: id.to_string(),
        content: String::new(),
        timestamp: String::new(),
        author: Author { id: "a".to_string(), username: "u".to_string(), global_name: None },
        attachments: vec![],
        mentions: vec![],
        embeds: vec![],
    }
}

fn messages(ids: &[&str]) -> Vec<Message> {
    ids.iter().map(|id| message(id)).collect()
}

fn ids(items: &[&str]) -> Vec<String> {
    items.iter().map(|s| s.to_string()).collect()
}

fn told(e: &PollerEvent) -> String {
    match e {
        PollerEvent::Bootstrap { last_id } => format!("bootstrap {last_id}"),
        PollerEvent::Reacted { message_id, emoji } => format!("{emoji} {message_id}"),
        PollerEvent::NoNewMessages => "none".to_string(),
        PollerEvent::Error(e) => format!("error {e}"),
        PollerEvent::Stopped => "stopped".to_string(),
    }
}

#[test]
fn first_fetch_records_the_newest_and_reacts_to_nothing() {
    let all = messages(&["30", "20", "10"]);
    match plan(&all, &None) {
        Cycle::Bootstrap { last_id } => {
            assert_eq!(last_id, "30");
            let mut state = AppState::default();
            bootstrap(&mut state, "ch", &last_id);
            assert_eq!(state.last_seen("ch"), Some("30".to_string()));
            match plan(&all, &state.last_seen("ch")) {
                Cycle::Batch { ids } => assert!(ids.is_empty()),
                _ => panic!("a batch"),
            }
        }
        _ => panic!("a first fetch"),
    }
    assert!(matches!(plan(&vec![], &None), Cycle::Nothing));
    assert!(matches!(plan(&vec![], &Some("1".to_string())), Cycle::Nothing));
}

#[test]
fn newer_messages_come_oldest_first() {
    let all = messages(&["1000", "999", "50", "7"]);
    assert_eq!(new_messages(&all, "50"), ids(&["999", "1000"]));
    assert_eq!(new_messages(&all, "0"), ids(&["7", "50", "999", "1000"]));
    assert_eq!(new_messages(&all, "1000"), ids(&[]));
    assert_eq!(new_messages(&all, "junk"), ids(&[]));
}

fn run(batch: &mut Batch, state: &mut AppState, fail_at: Option<(&str, &str)>) -> Vec<String> {
    let mut log = Vec::new();
    loop {
        match batch.step(state) {
            Step::React { message_id, emoji } => {
                let error = if fail_at == Some((message_id.as_str(), emoji.as_str())) {
                    Some("429".to_string())
                } else {
                    None
                };
                log.push(told(&batch.reacted(state, &message_id, &emoji, &error)));
            }
            Step::Advance { message_id } => {
                batch.advance(state);
                log.push(format!("done {message_id}"));
            }
            Step::Done => return log,
        }
    }
}

#[test]
fn every_message_gets_all_emojis_in_order() {
    let mut state = AppState::default();
    state.set_last_seen("ch", "1");
    let mut batch = Batch::new("ch", ids(&["2", "3"]));
    assert_eq!(
        run(&mut batch, &mut state, None),
        vec!["✅ 2", "🚫 2", "🤔 2", "done 2", "✅ 3", "🚫 3", "🤔 3", "done 3"]
    );
    assert_eq!(state.last_seen("ch"), Some("3".to_string()));
    assert!(state.reactions_done_by_channel.is_empty());
    let all: Vec<&str> = (0..3).map(reaction_emoji).collect();
    assert_eq!(all, vec!["✅", "🚫", "🤔"]);
}

#[test]
fn an_error_ends_the_batch_and_the_next_one_takes_it_up() {
    let mut state = AppState::default();
    state.set_last_seen("ch", "1");
    let mut batch = Batch::new("ch", ids(&["2", "3"]));
    assert_eq!(
        run(&mut batch, &mut state, Some(("2", "🚫"))),
        vec!["✅ 2", "error 🚫 on 2: 429"]
    );
    assert_eq!(state.last_seen("ch"), Some("1".to_string()));
    assert!(state.has_reacted("ch", "2", "✅"));
    let mut again = Batch::new("ch", ids(&["2", "3"]));
    assert_eq!(
        run(&mut again, &mut state, None),
        vec!["🚫 2", "🤔 2", "done 2", "✅ 3", "🚫 3", "🤔 3", "done 3"]
    );
    assert_eq!(state.last_seen("ch"), Some("3".to_string()));
}

#[test]
fn poller_texts() {
    assert_eq!(told(&bootstrap_event("9", "/s.json", &None)), "bootstrap 9");
    assert_eq!(
        told(&bootstrap_event("9", "/s.json", &Some("disk".to_string()))),
        "error failed to write state /s.json: disk"
    );
    assert_eq!(told(&save_error("disk")), "error failed to write state: disk");
}

#[test]
fn a_cut_batch_is_taken_up_where_it_ended() {
    let all = messages(&["1000", "999", "50", "7"]);
    let batch = new_messages(&all, "7");
    for j in 0..batch.len() {
        assert_eq!(new_messages(&all, &batch[j]), batch[j + 1..].to_vec());
    }
}

#[test]
fn an_empty_batch_is_told() {
    assert_eq!(batch_event(&vec![]).map(|e| told(&e)), Some("none".to_string()));
    assert!(batch_event(&ids(&["7"])).is_none());
}
