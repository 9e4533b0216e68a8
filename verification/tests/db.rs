use discord_to_insta::db::{
    log_delete, log_edit, log_guild, log_member, log_message, log_user, migrate, nickname_changed,
    overview_reads, user_reads, user_stats, NicknameRow, Param, Read, Write,
};

fn s(t: &str) -> Option<String> {
    Some(t.to_string())
}

fn shown(p: &Param) -> String {
    match p {
        Param::Int(n) => n.to_string(),
        Param::OptInt(n) => format!("{n:?}"),
        Param::Text(t) => format!("'{t}'"),
        Param::OptText(t) => format!("{t:?}"),
        Param::Now => "now".to_string(),
        Param::At(secs, nanos) => format!("{secs}.{nanos}"),
    }
}

fn statement(w: &Write) -> String {
    let params: Vec<String> = w.params().iter().map(shown).collect();
    format!("{} [{}]", w.sql(), params.join(" "))
}

fn statements(ws: &[Write]) -> Vec<String> {
    ws.iter().map(statement).collect()
}

#[test]
fn a_new_user_is_added_with_a_first_name() {
    assert_eq!(
        statements(&log_user(&None, 7, "ana")),
        vec![
            "INSERT INTO users (user_id, username, last_seen) VALUES ($1, $2, $3) ON CONFLICT (user_id) DO NOTHING [7 'ana' now]",
            "INSERT INTO user_names (user_id, username, recorded_at) VALUES ($1, $2, $3) [7 'ana' now]",
        ]
    );
}

#[test]
fn a_known_user_is_marked_as_seen() {
    assert_eq!(
        statements(&log_user(&s("ana"), 7, "ana")),
        vec!["UPDATE users SET last_seen = $1 WHERE user_id = $2 [now 7]"]
    );
}

#[test]
fn a_new_name_goes_into_the_history() {
    assert_eq!(
        statements(&log_user(&s("ana"), 7, "Ana")),
        vec![
            "UPDATE users SET username = $1, last_seen = $2 WHERE user_id = $3 ['Ana' now 7]",
            "INSERT INTO user_names (user_id, username, recorded_at) VALUES ($1, $2, $3) [7 'Ana' now]",
        ]
    );
}

#[test]
fn guilds_have_no_history() {
    assert_eq!(
        statements(&log_guild(&None, 3, "Mayo")),
        vec!["INSERT INTO guilds (guild_id, guild_name, last_seen) VALUES ($1, $2, $3) ON CONFLICT (guild_id) DO NOTHING [3 'Mayo' now]"]
    );
    assert_eq!(
        statements(&log_guild(&s("Mayo"), 3, "Jaune")),
        vec!["UPDATE guilds SET guild_name = $1, last_seen = $2 WHERE guild_id = $3 ['Jaune' now 3]"]
    );
    assert_eq!(
        statements(&log_guild(&s("Mayo"), 3, "Mayo")),
        vec!["UPDATE guilds SET last_seen = $1 WHERE guild_id = $2 [now 3]"]
    );
}

#[test]
fn members_keep_a_history_of_nicknames() {
    let history = "INSERT INTO guild_member_nicknames (user_id, guild_id, nickname, recorded_at) VALUES ($1, $2, $3, $4)";
    assert_eq!(
        statements(&log_member(&None, 7, 3, &None)),
        vec![
            "INSERT INTO guild_members (user_id, guild_id, nickname, last_seen) VALUES ($1, $2, $3, $4) ON CONFLICT (user_id, guild_id) DO NOTHING [7 3 None now]".to_string(),
            format!("{history} [7 3 None now]"),
        ]
    );
    assert_eq!(
        statements(&log_member(&Some(s("a")), 7, 3, &s("b"))),
        vec![
            "UPDATE guild_members SET nickname = $1, last_seen = $2 WHERE user_id = $3 AND guild_id = $4 [Some(\"b\") now 7 3]".to_string(),
            format!("{history} [7 3 Some(\"b\") now]"),
        ]
    );
    assert_eq!(log_member(&Some(None), 7, 3, &s("b")).len(), 2);
    assert_eq!(log_member(&Some(s("a")), 7, 3, &None).len(), 2);
    let seen = vec!["UPDATE guild_members SET last_seen = $1 WHERE user_id = $2 AND guild_id = $3 [now 7 3]"];
    assert_eq!(statements(&log_member(&Some(s("a")), 7, 3, &s("a"))), seen);
    assert_eq!(statements(&log_member(&Some(None), 7, 3, &None)), seen);
}

#[test]
fn nicknames_that_changed() {
    assert!(!nickname_changed(&None, &None));
    assert!(!nickname_changed(&s("a"), &s("a")));
    assert!(nickname_changed(&s("a"), &s("b")));
    assert!(nickname_changed(&None, &s("b")));
    assert!(nickname_changed(&s("a"), &None));
}

#[test]
fn messages_edits_and_deletions() {
    assert_eq!(
        statement(&log_message(1, 2, 3, Some(4), "x", Some((5, 6)))),
        "INSERT INTO messages (message_id, user_id, channel_id, guild_id, content, created_at) VALUES ($1, $2, $3, $4, $5, $6) ON CONFLICT (message_id) DO NOTHING [1 2 3 Some(4) 'x' 5.6]"
    );
    assert!(statement(&log_message(1, 2, 3, None, "x", None)).ends_with("[1 2 3 None 'x' now]"));
    assert_eq!(
        statement(&log_edit(1, 3, None, "y")),
        "INSERT INTO message_edits (message_id, channel_id, guild_id, new_content, edited_at) VALUES ($1, $2, $3, $4, $5) [1 3 None 'y' now]"
    );
    assert_eq!(
        statement(&log_delete(1, 3, Some(4))),
        "INSERT INTO message_deletions (message_id, channel_id, guild_id, deleted_at) VALUES ($1, $2, $3, $4) [1 3 Some(4) now]"
    );
}

#[test]
fn names_on_record_follow_the_user() {
    let mut stored: Option<String> = None;
    let mut history: Vec<String> = Vec::new();
    for name in ["ana", "ana", "Ana", "ana", "ana"] {
        for w in log_user(&stored, 7, name) {
            match w {
                Write::AddUser { username, .. } | Write::RenameUser { username, .. } => stored = Some(username),
                Write::AddUserName { username, .. } => history.push(username),
                _ => {}
            }
        }
        assert_eq!(stored.as_deref(), Some(name));
        assert_eq!(history.last().map(|s| s.as_str()), Some(name));
    }
    assert_eq!(history, vec!["ana", "Ana", "ana"]);
}

#[test]
fn the_schema_has_eight_tables_and_three_indexes() {
    let all = migrate();
    assert_eq!(all.len(), 11);
    assert_eq!(all.iter().filter(|q| q.starts_with("CREATE TABLE IF NOT EXISTS ")).count(), 8);
    assert_eq!(all.iter().filter(|q| q.starts_with("CREATE INDEX IF NOT EXISTS ")).count(), 3);
    assert!(all[0].starts_with("CREATE TABLE IF NOT EXISTS messages ( message_id BIGINT PRIMARY KEY,"));
}

#[test]
fn user_statistics_keep_the_order_of_the_rows() {
    let rows = vec![
        NicknameRow { guild_id: 1, nickname: "a".to_string(), guild_name: None },
        NicknameRow { guild_id: 2, nickname: "b".to_string(), guild_name: s("G") },
    ];
    let stats = user_stats(7, 10, 2, 1, rows);
    assert_eq!((stats.user_id, stats.messages, stats.edits, stats.deletions), (7, 10, 2, 1));
    assert_eq!(stats.nicknames, vec![(1, None, "a".to_string()), (2, s("G"), "b".to_string())]);
}

fn asked(r: &Read) -> String {
    format!("{} {:?}", r.sql(), r.params())
}

#[test]
fn each_part_of_the_statistics_has_its_question() {
    let u = user_reads(7);
    assert_eq!(asked(&u.messages), "SELECT COUNT(*) FROM messages WHERE user_id = $1 [7]");
    assert_eq!(
        asked(&u.edits),
        "SELECT COUNT(*) FROM message_edits me JOIN messages m ON me.message_id = m.message_id WHERE m.user_id = $1 [7]"
    );
    assert_eq!(
        asked(&u.deletions),
        "SELECT COUNT(*) FROM message_deletions md JOIN messages m ON md.message_id = m.message_id WHERE m.user_id = $1 [7]"
    );
    assert_eq!(
        asked(&u.nicknames),
        "SELECT gm.guild_id, gm.nickname, g.guild_name FROM guild_members gm LEFT JOIN guilds g ON gm.guild_id = g.guild_id WHERE gm.user_id = $1 AND gm.nickname IS NOT NULL [7]"
    );
    let o = overview_reads();
    assert_eq!(asked(&o.messages), "SELECT COUNT(*) FROM messages []");
    assert_eq!(asked(&o.edits), "SELECT COUNT(*) FROM message_edits []");
    assert_eq!(asked(&o.deletions), "SELECT COUNT(*) FROM message_deletions []");
    assert_eq!(asked(&o.users), "SELECT COUNT(*) FROM users []");
    assert_eq!(asked(&o.guilds), "SELECT COUNT(*) FROM guilds []");
}

#[test]
fn lookups_bind_what_they_ask_for() {
    assert_eq!(
        asked(&Read::Username { user_id: 7 }),
        "SELECT username FROM users WHERE user_id = $1 [7]"
    );
    assert_eq!(
        asked(&Read::GuildName { guild_id: 8 }),
        "SELECT guild_name FROM guilds WHERE guild_id = $1 [8]"
    );
    assert_eq!(
        asked(&Read::Nickname { user_id: 7, guild_id: 8 }),
        "SELECT nickname FROM guild_members WHERE user_id = $1 AND guild_id = $2 [7, 8]"
    );
    assert_eq!(
        asked(&Read::TopAuthors { limit: 5 }),
        "SELECT m.user_id, u.username, COUNT(*) AS msg_count FROM messages m LEFT JOIN users u ON u.user_id = m.user_id GROUP BY m.user_id, u.username ORDER BY msg_count DESC LIMIT $1 [5]"
    );
}
