//! The log of messages in a database: which statements record what was seen,
//! with a history of the names of users and of the nicknames of members.

use vstd::prelude::*;

use crate::gateway::copy_text;
use crate::json::opt_text;
use crate::text::same;

verus! {

/// The table of messages.
pub const CREATE_MESSAGES: &'static str =
    "CREATE TABLE IF NOT EXISTS messages ( message_id BIGINT PRIMARY KEY, user_id BIGINT NOT NULL, channel_id BIGINT NOT NULL, guild_id BIGINT, content TEXT NOT NULL, created_at TIMESTAMP NOT NULL )";

/// The table of edits.
pub const CREATE_MESSAGE_EDITS: &'static str =
    "CREATE TABLE IF NOT EXISTS message_edits ( id SERIAL PRIMARY KEY, message_id BIGINT NOT NULL, channel_id BIGINT NOT NULL, guild_id BIGINT, new_content TEXT NOT NULL, edited_at TIMESTAMP NOT NULL )";

/// The table of deletions.
pub const CREATE_MESSAGE_DELETIONS: &'static str =
    "CREATE TABLE IF NOT EXISTS message_deletions ( id SERIAL PRIMARY KEY, message_id BIGINT NOT NULL, channel_id BIGINT NOT NULL, guild_id BIGINT, deleted_at TIMESTAMP NOT NULL )";

/// The table of users.
pub const CREATE_USERS: &'static str =
    "CREATE TABLE IF NOT EXISTS users ( user_id BIGINT PRIMARY KEY, username TEXT NOT NULL, last_seen TIMESTAMP NOT NULL )";

/// The history of user names.
pub const CREATE_USER_NAMES: &'static str =
    "CREATE TABLE IF NOT EXISTS user_names ( id SERIAL PRIMARY KEY, user_id BIGINT NOT NULL, username TEXT NOT NULL, recorded_at TIMESTAMP NOT NULL )";

/// The table of guilds.
pub const CREATE_GUILDS: &'static str =
    "CREATE TABLE IF NOT EXISTS guilds ( guild_id BIGINT PRIMARY KEY, guild_name TEXT NOT NULL, last_seen TIMESTAMP NOT NULL )";

/// The table of guild members.
pub const CREATE_GUILD_MEMBERS: &'static str =
    "CREATE TABLE IF NOT EXISTS guild_members ( user_id BIGINT NOT NULL, guild_id BIGINT NOT NULL, nickname TEXT, last_seen TIMESTAMP NOT NULL, PRIMARY KEY (user_id, guild_id) )";

/// The history of nicknames.
pub const CREATE_GUILD_MEMBER_NICKNAMES: &'static str =
    "CREATE TABLE IF NOT EXISTS guild_member_nicknames ( id SERIAL PRIMARY KEY, user_id BIGINT NOT NULL, guild_id BIGINT NOT NULL, nickname TEXT, recorded_at TIMESTAMP NOT NULL )";

/// The index of messages by user.
pub const CREATE_INDEX_MESSAGES: &'static str =
    "CREATE INDEX IF NOT EXISTS idx_messages_user_id ON messages(user_id)";

/// The index of edits by message.
pub const CREATE_INDEX_EDITS: &'static str =
    "CREATE INDEX IF NOT EXISTS idx_message_edits_message_id ON message_edits(message_id)";

/// The index of deletions by message.
pub const CREATE_INDEX_DELETIONS: &'static str =
    "CREATE INDEX IF NOT EXISTS idx_message_deletions_message_id ON message_deletions(message_id)";

/// Looks a user's name up.
pub const SELECT_USERNAME: &'static str =
    "SELECT username FROM users WHERE user_id = $1";

/// Changes a user's name.
pub const RENAME_USER: &'static str =
    "UPDATE users SET username = $1, last_seen = $2 WHERE user_id = $3";

/// Adds a name to the history.
pub const ADD_USER_NAME: &'static str =
    "INSERT INTO user_names (user_id, username, recorded_at) VALUES ($1, $2, $3)";

/// Marks a user as seen.
pub const SEE_USER: &'static str =
    "UPDATE users SET last_seen = $1 WHERE user_id = $2";

/// Adds a user, unless there is one with the id.
pub const ADD_USER: &'static str =
    "INSERT INTO users (user_id, username, last_seen) VALUES ($1, $2, $3) ON CONFLICT (user_id) DO NOTHING";

/// Looks a guild's name up.
pub const SELECT_GUILD_NAME: &'static str =
    "SELECT guild_name FROM guilds WHERE guild_id = $1";

/// Changes a guild's name.
pub const RENAME_GUILD: &'static str =
    "UPDATE guilds SET guild_name = $1, last_seen = $2 WHERE guild_id = $3";

/// Marks a guild as seen.
pub const SEE_GUILD: &'static str =
    "UPDATE guilds SET last_seen = $1 WHERE guild_id = $2";

/// Adds a guild, unless there is one with the id.
pub const ADD_GUILD: &'static str =
    "INSERT INTO guilds (guild_id, guild_name, last_seen) VALUES ($1, $2, $3) ON CONFLICT (guild_id) DO NOTHING";

/// Looks a member's nickname up.
pub const SELECT_NICKNAME: &'static str =
    "SELECT nickname FROM guild_members WHERE user_id = $1 AND guild_id = $2";

/// Changes a member's nickname.
pub const RENAME_MEMBER: &'static str =
    "UPDATE guild_members SET nickname = $1, last_seen = $2 WHERE user_id = $3 AND guild_id = $4";

/// Adds a nickname to the history.
pub const ADD_NICKNAME: &'static str =
    "INSERT INTO guild_member_nicknames (user_id, guild_id, nickname, recorded_at) VALUES ($1, $2, $3, $4)";

/// Marks a member as seen.
pub const SEE_MEMBER: &'static str =
    "UPDATE guild_members SET last_seen = $1 WHERE user_id = $2 AND guild_id = $3";

/// Adds a member, unless there is one with the ids.
pub const ADD_MEMBER: &'static str =
    "INSERT INTO guild_members (user_id, guild_id, nickname, last_seen) VALUES ($1, $2, $3, $4) ON CONFLICT (user_id, guild_id) DO NOTHING";

/// Adds a message, unless there is one with the id.
pub const ADD_MESSAGE: &'static str =
    "INSERT INTO messages (message_id, user_id, channel_id, guild_id, content, created_at) VALUES ($1, $2, $3, $4, $5, $6) ON CONFLICT (message_id) DO NOTHING";

/// Adds an edit.
pub const ADD_EDIT: &'static str =
    "INSERT INTO message_edits (message_id, channel_id, guild_id, new_content, edited_at) VALUES ($1, $2, $3, $4, $5)";

/// Adds a deletion.
pub const ADD_DELETION: &'static str =
    "INSERT INTO message_deletions (message_id, channel_id, guild_id, deleted_at) VALUES ($1, $2, $3, $4)";

/// Counts a user's messages.
pub const COUNT_USER_MESSAGES: &'static str =
    "SELECT COUNT(*) FROM messages WHERE user_id = $1";

/// Counts the edits of a user's messages.
pub const COUNT_USER_EDITS: &'static str =
    "SELECT COUNT(*) FROM message_edits me JOIN messages m ON me.message_id = m.message_id WHERE m.user_id = $1";

/// Counts the deletions of a user's messages.
pub const COUNT_USER_DELETIONS: &'static str =
    "SELECT COUNT(*) FROM message_deletions md JOIN messages m ON md.message_id = m.message_id WHERE m.user_id = $1";

/// Lists a user's nicknames by guild.
pub const SELECT_USER_NICKNAMES: &'static str =
    "SELECT gm.guild_id, gm.nickname, g.guild_name FROM guild_members gm LEFT JOIN guilds g ON gm.guild_id = g.guild_id WHERE gm.user_id = $1 AND gm.nickname IS NOT NULL";

/// Counts the messages.
pub const COUNT_MESSAGES: &'static str =
    "SELECT COUNT(*) FROM messages";

/// Counts the edits.
pub const COUNT_EDITS: &'static str =
    "SELECT COUNT(*) FROM message_edits";

/// Counts the deletions.
pub const COUNT_DELETIONS: &'static str =
    "SELECT COUNT(*) FROM message_deletions";

/// Counts the users.
pub const COUNT_USERS: &'static str =
    "SELECT COUNT(*) FROM users";

/// Counts the guilds.
pub const COUNT_GUILDS: &'static str =
    "SELECT COUNT(*) FROM guilds";

/// Lists the users with the most messages.
pub const SELECT_TOP_AUTHORS: &'static str =
    "SELECT m.user_id, u.username, COUNT(*) AS msg_count FROM messages m LEFT JOIN users u ON u.user_id = m.user_id GROUP BY m.user_id, u.username ORDER BY msg_count DESC LIMIT $1";

/// A change of the database.
#[allow(inconsistent_fields)]
pub enum Write {
    AddUser { user_id: i64, username: String },
    RenameUser { user_id: i64, username: String },
    SeeUser { user_id: i64 },
    AddUserName { user_id: i64, username: String },
    AddGuild { guild_id: i64, guild_name: String },
    RenameGuild { guild_id: i64, guild_name: String },
    SeeGuild { guild_id: i64 },
    AddMember { user_id: i64, guild_id: i64, nickname: Option<String> },
    RenameMember { user_id: i64, guild_id: i64, nickname: Option<String> },
    SeeMember { user_id: i64, guild_id: i64 },
    AddNickname { user_id: i64, guild_id: i64, nickname: Option<String> },
    AddMessage {
        message_id: i64,
        user_id: i64,
        channel_id: i64,
        guild_id: Option<i64>,
        content: String,
        created_at: Option<(i64, u32)>,
    },
    AddEdit { message_id: i64, channel_id: i64, guild_id: Option<i64>, new_content: String },
    AddDeletion { message_id: i64, channel_id: i64, guild_id: Option<i64> },
}

/// A change of the database, with texts as characters.
#[allow(inconsistent_fields)]
pub enum WriteModel {
    AddUser { user_id: i64, username: Seq<char> },
    RenameUser { user_id: i64, username: Seq<char> },
    SeeUser { user_id: i64 },
    AddUserName { user_id: i64, username: Seq<char> },
    AddGuild { guild_id: i64, guild_name: Seq<char> },
    RenameGuild { guild_id: i64, guild_name: Seq<char> },
    SeeGuild { guild_id: i64 },
    AddMember { user_id: i64, guild_id: i64, nickname: Option<Seq<char>> },
    RenameMember { user_id: i64, guild_id: i64, nickname: Option<Seq<char>> },
    SeeMember { user_id: i64, guild_id: i64 },
    AddNickname { user_id: i64, guild_id: i64, nickname: Option<Seq<char>> },
    AddMessage {
        message_id: i64,
        user_id: i64,
        channel_id: i64,
        guild_id: Option<i64>,
        content: Seq<char>,
        created_at: Option<(i64, u32)>,
    },
    AddEdit { message_id: i64, channel_id: i64, guild_id: Option<i64>, new_content: Seq<char> },
    AddDeletion { message_id: i64, channel_id: i64, guild_id: Option<i64> },
}

impl View for Write {
    type V = WriteModel;

    open spec fn view(&self) -> WriteModel {
        match *self {
            Write::AddUser { user_id, username } => WriteModel::AddUser {
                user_id,
                username: username@,
            },
            Write::RenameUser { user_id, username } => WriteModel::RenameUser {
                user_id,
                username: username@,
            },
            Write::SeeUser { user_id } => WriteModel::SeeUser { user_id },
            Write::AddUserName { user_id, username } => WriteModel::AddUserName {
                user_id,
                username: username@,
            },
            Write::AddGuild { guild_id, guild_name } => WriteModel::AddGuild {
                guild_id,
                guild_name: guild_name@,
            },
            Write::RenameGuild { guild_id, guild_name } => WriteModel::RenameGuild {
                guild_id,
                guild_name: guild_name@,
            },
            Write::SeeGuild { guild_id } => WriteModel::SeeGuild { guild_id },
            Write::AddMember { user_id, guild_id, nickname } => WriteModel::AddMember {
                user_id,
                guild_id,
                nickname: opt_text(nickname),
            },
            Write::RenameMember { user_id, guild_id, nickname } => WriteModel::RenameMember {
                user_id,
                guild_id,
                nickname: opt_text(nickname),
            },
            Write::SeeMember { user_id, guild_id } => WriteModel::SeeMember { user_id, guild_id },
            Write::AddNickname { user_id, guild_id, nickname } => WriteModel::AddNickname {
                user_id,
                guild_id,
                nickname: opt_text(nickname),
            },
            Write::AddMessage {
                message_id,
                user_id,
                channel_id,
                guild_id,
                content,
                created_at,
            } => WriteModel::AddMessage {
                message_id,
                user_id,
                channel_id,
                guild_id,
                content: content@,
                created_at,
            },
            Write::AddEdit {
                message_id,
                channel_id,
                guild_id,
                new_content,
            } => WriteModel::AddEdit {
                message_id,
                channel_id,
                guild_id,
                new_content: new_content@,
            },
            Write::AddDeletion { message_id, channel_id, guild_id } => WriteModel::AddDeletion {
                message_id,
                channel_id,
                guild_id,
            },
        }
    }
}

/// A value bound to a statement.
pub enum Param {
    Int(i64),
    OptInt(Option<i64>),
    Text(String),
    OptText(Option<String>),
    /// The current time.
    Now,
    /// A time in seconds since 1970 and nanoseconds.
    At(i64, u32),
}

/// A value bound to a statement, with texts as characters.
pub enum ParamModel {
    Int(i64),
    OptInt(Option<i64>),
    Text(Seq<char>),
    OptText(Option<Seq<char>>),
    Now,
    At(i64, u32),
}

impl View for Param {
    type V = ParamModel;

    open spec fn view(&self) -> ParamModel {
        match *self {
            Param::Int(n) => ParamModel::Int(n),
            Param::OptInt(n) => ParamModel::OptInt(n),
            Param::Text(s) => ParamModel::Text(s@),
            Param::OptText(s) => ParamModel::OptText(opt_text(s)),
            Param::Now => ParamModel::Now,
            Param::At(secs, nanos) => ParamModel::At(secs, nanos),
        }
    }
}

/// The time that is stored: the one that is known, else the current one.
pub open spec fn moment(at: Option<(i64, u32)>) -> ParamModel {
    match at {
        Some((secs, nanos)) => ParamModel::At(secs, nanos),
        None => ParamModel::Now,
    }
}

/// The statement that makes a change.
pub open spec fn sql_of(w: WriteModel) -> Seq<char> {
    match w {
        WriteModel::AddUser { .. } => ADD_USER@,
        WriteModel::RenameUser { .. } => RENAME_USER@,
        WriteModel::SeeUser { .. } => SEE_USER@,
        WriteModel::AddUserName { .. } => ADD_USER_NAME@,
        WriteModel::AddGuild { .. } => ADD_GUILD@,
        WriteModel::RenameGuild { .. } => RENAME_GUILD@,
        WriteModel::SeeGuild { .. } => SEE_GUILD@,
        WriteModel::AddMember { .. } => ADD_MEMBER@,
        WriteModel::RenameMember { .. } => RENAME_MEMBER@,
        WriteModel::SeeMember { .. } => SEE_MEMBER@,
        WriteModel::AddNickname { .. } => ADD_NICKNAME@,
        WriteModel::AddMessage { .. } => ADD_MESSAGE@,
        WriteModel::AddEdit { .. } => ADD_EDIT@,
        WriteModel::AddDeletion { .. } => ADD_DELETION@,
    }
}

/// The values bound to the statement that makes a change, in order.
pub open spec fn params_of(w: WriteModel) -> Seq<ParamModel> {
    match w {
        WriteModel::AddUser { user_id, username } => seq![
            ParamModel::Int(user_id),
            ParamModel::Text(username),
            ParamModel::Now,
        ],
        WriteModel::RenameUser { user_id, username } => seq![
            ParamModel::Text(username),
            ParamModel::Now,
            ParamModel::Int(user_id),
        ],
        WriteModel::SeeUser { user_id } => seq![ParamModel::Now, ParamModel::Int(user_id)],
        WriteModel::AddUserName { user_id, username } => seq![
            ParamModel::Int(user_id),
            ParamModel::Text(username),
            ParamModel::Now,
        ],
        WriteModel::AddGuild { guild_id, guild_name } => seq![
            ParamModel::Int(guild_id),
            ParamModel::Text(guild_name),
            ParamModel::Now,
        ],
        WriteModel::RenameGuild { guild_id, guild_name } => seq![
            ParamModel::Text(guild_name),
            ParamModel::Now,
            ParamModel::Int(guild_id),
        ],
        WriteModel::SeeGuild { guild_id } => seq![ParamModel::Now, ParamModel::Int(guild_id)],
        WriteModel::AddMember { user_id, guild_id, nickname } => seq![
            ParamModel::Int(user_id),
            ParamModel::Int(guild_id),
            ParamModel::OptText(nickname),
            ParamModel::Now,
        ],
        WriteModel::RenameMember { user_id, guild_id, nickname } => seq![
            ParamModel::OptText(nickname),
            ParamModel::Now,
            ParamModel::Int(user_id),
            ParamModel::Int(guild_id),
        ],
        WriteModel::SeeMember { user_id, guild_id } => seq![
            ParamModel::Now,
            ParamModel::Int(user_id),
            ParamModel::Int(guild_id),
        ],
        WriteModel::AddNickname { user_id, guild_id, nickname } => seq![
            ParamModel::Int(user_id),
            ParamModel::Int(guild_id),
            ParamModel::OptText(nickname),
            ParamModel::Now,
        ],
        WriteModel::AddMessage {
            message_id,
            user_id,
            channel_id,
            guild_id,
            content,
            created_at,
        } => seq![
            ParamModel::Int(message_id),
            ParamModel::Int(user_id),
            ParamModel::Int(channel_id),
            ParamModel::OptInt(guild_id),
            ParamModel::Text(content),
            moment(created_at),
        ],
        WriteModel::AddEdit { message_id, channel_id, guild_id, new_content } => seq![
            ParamModel::Int(message_id),
            ParamModel::Int(channel_id),
            ParamModel::OptInt(guild_id),
            ParamModel::Text(new_content),
            ParamModel::Now,
        ],
        WriteModel::AddDeletion { message_id, channel_id, guild_id } => seq![
            ParamModel::Int(message_id),
            ParamModel::Int(channel_id),
            ParamModel::OptInt(guild_id),
            ParamModel::Now,
        ],
    }
}

fn time_param(at: Option<(i64, u32)>) -> (p: Param)
    ensures
        p@ == moment(at),
{
    match at {
        Some((secs, nanos)) => Param::At(secs, nanos),
        None => Param::Now,
    }
}

impl Write {
    /// The statement that makes the change.
    pub fn sql(&self) -> (s: &'static str)
        ensures
            s@ == sql_of(self@),
    {
        match self {
            Write::AddUser { .. } => ADD_USER,
            Write::RenameUser { .. } => RENAME_USER,
            Write::SeeUser { .. } => SEE_USER,
            Write::AddUserName { .. } => ADD_USER_NAME,
            Write::AddGuild { .. } => ADD_GUILD,
            Write::RenameGuild { .. } => RENAME_GUILD,
            Write::SeeGuild { .. } => SEE_GUILD,
            Write::AddMember { .. } => ADD_MEMBER,
            Write::RenameMember { .. } => RENAME_MEMBER,
            Write::SeeMember { .. } => SEE_MEMBER,
            Write::AddNickname { .. } => ADD_NICKNAME,
            Write::AddMessage { .. } => ADD_MESSAGE,
            Write::AddEdit { .. } => ADD_EDIT,
            Write::AddDeletion { .. } => ADD_DELETION,
        }
    }

    /// The values bound to the statement, in order.
    pub fn params(&self) -> (out: Vec<Param>)
        ensures
            out@.map_values(|p: Param| p@) == params_of(self@),
    {
        let mut out: Vec<Param> = Vec::new();
        match self {
            Write::AddUser { user_id, username } => {
                out.push(Param::Int(*user_id));
                out.push(Param::Text(username.clone()));
                out.push(Param::Now);
            },
            Write::RenameUser { user_id, username } => {
                out.push(Param::Text(username.clone()));
                out.push(Param::Now);
                out.push(Param::Int(*user_id));
            },
            Write::SeeUser { user_id } => {
                out.push(Param::Now);
                out.push(Param::Int(*user_id));
            },
            Write::AddUserName { user_id, username } => {
                out.push(Param::Int(*user_id));
                out.push(Param::Text(username.clone()));
                out.push(Param::Now);
            },
            Write::AddGuild { guild_id, guild_name } => {
                out.push(Param::Int(*guild_id));
                out.push(Param::Text(guild_name.clone()));
                out.push(Param::Now);
            },
            Write::RenameGuild { guild_id, guild_name } => {
                out.push(Param::Text(guild_name.clone()));
                out.push(Param::Now);
                out.push(Param::Int(*guild_id));
            },
            Write::SeeGuild { guild_id } => {
                out.push(Param::Now);
                out.push(Param::Int(*guild_id));
            },
            Write::AddMember { user_id, guild_id, nickname } => {
                out.push(Param::Int(*user_id));
                out.push(Param::Int(*guild_id));
                out.push(Param::OptText(copy_text(nickname)));
                out.push(Param::Now);
            },
            Write::RenameMember { user_id, guild_id, nickname } => {
                out.push(Param::OptText(copy_text(nickname)));
                out.push(Param::Now);
                out.push(Param::Int(*user_id));
                out.push(Param::Int(*guild_id));
            },
            Write::SeeMember { user_id, guild_id } => {
                out.push(Param::Now);
                out.push(Param::Int(*user_id));
                out.push(Param::Int(*guild_id));
            },
            Write::AddNickname { user_id, guild_id, nickname } => {
                out.push(Param::Int(*user_id));
                out.push(Param::Int(*guild_id));
                out.push(Param::OptText(copy_text(nickname)));
                out.push(Param::Now);
            },
            Write::AddMessage {
                message_id,
                user_id,
                channel_id,
                guild_id,
                content,
                created_at,
            } => {
                out.push(Param::Int(*message_id));
                out.push(Param::Int(*user_id));
                out.push(Param::Int(*channel_id));
                out.push(Param::OptInt(*guild_id));
                out.push(Param::Text(content.clone()));
                out.push(time_param(*created_at));
            },
            Write::AddEdit { message_id, channel_id, guild_id, new_content } => {
                out.push(Param::Int(*message_id));
                out.push(Param::Int(*channel_id));
                out.push(Param::OptInt(*guild_id));
                out.push(Param::Text(new_content.clone()));
                out.push(Param::Now);
            },
            Write::AddDeletion { message_id, channel_id, guild_id } => {
                out.push(Param::Int(*message_id));
                out.push(Param::Int(*channel_id));
                out.push(Param::OptInt(*guild_id));
                out.push(Param::Now);
            },
        }
        assert(out@.map_values(|p: Param| p@) =~= params_of(self@));
        out
    }
}

/// The changes as models.
pub open spec fn writes_of(s: Seq<Write>) -> Seq<WriteModel> {
    s.map_values(|w: Write| w@)
}

/// The statements that set the database up, in order.
pub open spec fn schema_statements() -> Seq<Seq<char>> {
    seq![
        CREATE_MESSAGES@,
        CREATE_MESSAGE_EDITS@,
        CREATE_MESSAGE_DELETIONS@,
        CREATE_USERS@,
        CREATE_USER_NAMES@,
        CREATE_GUILDS@,
        CREATE_GUILD_MEMBERS@,
        CREATE_GUILD_MEMBER_NICKNAMES@,
        CREATE_INDEX_MESSAGES@,
        CREATE_INDEX_EDITS@,
        CREATE_INDEX_DELETIONS@,
    ]
}

/// The statements that set the database up, in order.
pub fn migrate() -> (out: Vec<String>)
    ensures
        crate::strmap::texts(out@) == schema_statements(),
        crate::strmap::texts(out@) == seq![
            "CREATE TABLE IF NOT EXISTS messages ( message_id BIGINT PRIMARY KEY, user_id BIGINT NOT NULL, channel_id BIGINT NOT NULL, guild_id BIGINT, content TEXT NOT NULL, created_at TIMESTAMP NOT NULL )"@,
            "CREATE TABLE IF NOT EXISTS message_edits ( id SERIAL PRIMARY KEY, message_id BIGINT NOT NULL, channel_id BIGINT NOT NULL, guild_id BIGINT, new_content TEXT NOT NULL, edited_at TIMESTAMP NOT NULL )"@,
            "CREATE TABLE IF NOT EXISTS message_deletions ( id SERIAL PRIMARY KEY, message_id BIGINT NOT NULL, channel_id BIGINT NOT NULL, guild_id BIGINT, deleted_at TIMESTAMP NOT NULL )"@,
            "CREATE TABLE IF NOT EXISTS users ( user_id BIGINT PRIMARY KEY, username TEXT NOT NULL, last_seen TIMESTAMP NOT NULL )"@,
            "CREATE TABLE IF NOT EXISTS user_names ( id SERIAL PRIMARY KEY, user_id BIGINT NOT NULL, username TEXT NOT NULL, recorded_at TIMESTAMP NOT NULL )"@,
            "CREATE TABLE IF NOT EXISTS guilds ( guild_id BIGINT PRIMARY KEY, guild_name TEXT NOT NULL, last_seen TIMESTAMP NOT NULL )"@,
            "CREATE TABLE IF NOT EXISTS guild_members ( user_id BIGINT NOT NULL, guild_id BIGINT NOT NULL, nickname TEXT, last_seen TIMESTAMP NOT NULL, PRIMARY KEY (user_id, guild_id) )"@,
            "CREATE TABLE IF NOT EXISTS guild_member_nicknames ( id SERIAL PRIMARY KEY, user_id BIGINT NOT NULL, guild_id BIGINT NOT NULL, nickname TEXT, recorded_at TIMESTAMP NOT NULL )"@,
            "CREATE INDEX IF NOT EXISTS idx_messages_user_id ON messages(user_id)"@,
            "CREATE INDEX IF NOT EXISTS idx_message_edits_message_id ON message_edits(message_id)"@,
            "CREATE INDEX IF NOT EXISTS idx_message_deletions_message_id ON message_deletions(message_id)"@,
        ],
{
    let mut out: Vec<String> = Vec::new();
    out.push(CREATE_MESSAGES.to_string());
    out.push(CREATE_MESSAGE_EDITS.to_string());
    out.push(CREATE_MESSAGE_DELETIONS.to_string());
    out.push(CREATE_USERS.to_string());
    out.push(CREATE_USER_NAMES.to_string());
    out.push(CREATE_GUILDS.to_string());
    out.push(CREATE_GUILD_MEMBERS.to_string());
    out.push(CREATE_GUILD_MEMBER_NICKNAMES.to_string());
    out.push(CREATE_INDEX_MESSAGES.to_string());
    out.push(CREATE_INDEX_EDITS.to_string());
    out.push(CREATE_INDEX_DELETIONS.to_string());
    assert(crate::strmap::texts(out@) =~= schema_statements());
    out
}

/// The changes when a user is seen, where `stored` is the name on record.
pub open spec fn user_writes(stored: Option<Seq<char>>, user_id: i64, username: Seq<char>) -> Seq<
    WriteModel,
> {
    match stored {
        Some(name) if name == username => seq![WriteModel::SeeUser { user_id }],
        Some(_) => seq![
            WriteModel::RenameUser { user_id, username },
            WriteModel::AddUserName { user_id, username },
        ],
        None => seq![
            WriteModel::AddUser { user_id, username },
            WriteModel::AddUserName { user_id, username },
        ],
    }
}

/// Decides on the changes when a user is seen, where `stored` is the name on
/// record.
pub fn log_user(stored: &Option<String>, user_id: i64, username: &str) -> (out: Vec<Write>)
    ensures
        writes_of(out@) == user_writes(opt_text(*stored), user_id, username@),
{
    let mut out: Vec<Write> = Vec::new();
    match stored {
        Some(name) => {
            if same(name.as_str(), username) {
                out.push(Write::SeeUser { user_id });
            } else {
                out.push(Write::RenameUser { user_id, username: username.to_string() });
                out.push(Write::AddUserName { user_id, username: username.to_string() });
            }
        },
        None => {
            out.push(Write::AddUser { user_id, username: username.to_string() });
            out.push(Write::AddUserName { user_id, username: username.to_string() });
        },
    }
    assert(writes_of(out@) =~= user_writes(opt_text(*stored), user_id, username@));
    out
}

/// The changes when a guild is seen, where `stored` is the name on record.
pub open spec fn guild_writes(
    stored: Option<Seq<char>>,
    guild_id: i64,
    guild_name: Seq<char>,
) -> Seq<WriteModel> {
    match stored {
        Some(name) if name == guild_name => seq![WriteModel::SeeGuild { guild_id }],
        Some(_) => seq![WriteModel::RenameGuild { guild_id, guild_name }],
        None => seq![WriteModel::AddGuild { guild_id, guild_name }],
    }
}

/// Decides on the changes when a guild is seen, where `stored` is the name on
/// record.
pub fn log_guild(stored: &Option<String>, guild_id: i64, guild_name: &str) -> (out: Vec<Write>)
    ensures
        writes_of(out@) == guild_writes(opt_text(*stored), guild_id, guild_name@),
{
    let mut out: Vec<Write> = Vec::new();
    match stored {
        Some(name) => {
            if same(name.as_str(), guild_name) {
                out.push(Write::SeeGuild { guild_id });
            } else {
                out.push(Write::RenameGuild { guild_id, guild_name: guild_name.to_string() });
            }
        },
        None => {
            out.push(Write::AddGuild { guild_id, guild_name: guild_name.to_string() });
        },
    }
    assert(writes_of(out@) =~= guild_writes(opt_text(*stored), guild_id, guild_name@));
    out
}

/// The row on record for a member: none, or the nickname, which may be none.
pub open spec fn row_text(row: Option<Option<String>>) -> Option<Option<Seq<char>>> {
    match row {
        Some(nickname) => Some(opt_text(nickname)),
        None => None,
    }
}

/// The changes when a member is seen, where `stored` is the row on record.
pub open spec fn member_writes(
    stored: Option<Option<Seq<char>>>,
    user_id: i64,
    guild_id: i64,
    nickname: Option<Seq<char>>,
) -> Seq<WriteModel> {
    match stored {
        Some(known) if known == nickname => seq![WriteModel::SeeMember { user_id, guild_id }],
        Some(_) => seq![
            WriteModel::RenameMember { user_id, guild_id, nickname },
            WriteModel::AddNickname { user_id, guild_id, nickname },
        ],
        None => seq![
            WriteModel::AddMember { user_id, guild_id, nickname },
            WriteModel::AddNickname { user_id, guild_id, nickname },
        ],
    }
}

/// Whether a nickname differs from the one on record.
pub fn nickname_changed(stored: &Option<String>, nickname: &Option<String>) -> (r: bool)
    ensures
        r == (opt_text(*stored) != opt_text(*nickname)),
{
    match (stored, nickname) {
        (Some(s), Some(n)) => !same(s.as_str(), n.as_str()),
        (None, None) => false,
        _ => true,
    }
}

/// Decides on the changes when a member is seen, where `stored` is the row on
/// record.
pub fn log_member(
    stored: &Option<Option<String>>,
    user_id: i64,
    guild_id: i64,
    nickname: &Option<String>,
) -> (out: Vec<Write>)
    ensures
        writes_of(out@) == member_writes(
            row_text(*stored),
            user_id,
            guild_id,
            opt_text(*nickname),
        ),
{
    let mut out: Vec<Write> = Vec::new();
    match stored {
        Some(known) => {
            if nickname_changed(known, nickname) {
                out.push(
                    Write::RenameMember { user_id, guild_id, nickname: copy_text(nickname) },
                );
                out.push(Write::AddNickname { user_id, guild_id, nickname: copy_text(nickname) });
            } else {
                out.push(Write::SeeMember { user_id, guild_id });
            }
        },
        None => {
            out.push(Write::AddMember { user_id, guild_id, nickname: copy_text(nickname) });
            out.push(Write::AddNickname { user_id, guild_id, nickname: copy_text(nickname) });
        },
    }
    assert(writes_of(out@) =~= member_writes(
        row_text(*stored),
        user_id,
        guild_id,
        opt_text(*nickname),
    ));
    out
}

/// The change that records a message; it was written at `created_at`, or just
/// now where that is not known.
pub fn log_message(
    message_id: i64,
    user_id: i64,
    channel_id: i64,
    guild_id: Option<i64>,
    content: &str,
    created_at: Option<(i64, u32)>,
) -> (w: Write)
    ensures
        w@ == (WriteModel::AddMessage {
            message_id,
            user_id,
            channel_id,
            guild_id,
            content: content@,
            created_at,
        }),
{
    Write::AddMessage {
        message_id,
        user_id,
        channel_id,
        guild_id,
        content: content.to_string(),
        created_at,
    }
}

/// The change that records an edit.
pub fn log_edit(
    message_id: i64,
    channel_id: i64,
    guild_id: Option<i64>,
    new_content: &str,
) -> (w: Write)
    ensures
        w@ == (WriteModel::AddEdit { message_id, channel_id, guild_id, new_content: new_content@ }),
{
    Write::AddEdit { message_id, channel_id, guild_id, new_content: new_content.to_string() }
}

/// The change that records a deletion.
pub fn log_delete(message_id: i64, channel_id: i64, guild_id: Option<i64>) -> (w: Write)
    ensures
        w@ == (WriteModel::AddDeletion { message_id, channel_id, guild_id }),
{
    Write::AddDeletion { message_id, channel_id, guild_id }
}

/// What the database holds, times left out.
pub struct Tables {
    pub users: Map<i64, Seq<char>>,
    pub user_names: Seq<(i64, Seq<char>)>,
    pub guilds: Map<i64, Seq<char>>,
    pub members: Map<(i64, i64), Option<Seq<char>>>,
    pub nicknames: Seq<((i64, i64), Option<Seq<char>>)>,
    pub messages: Map<i64, (i64, i64, Option<i64>, Seq<char>)>,
    pub edits: Seq<(i64, i64, Option<i64>, Seq<char>)>,
    pub deletions: Seq<(i64, i64, Option<i64>)>,
}

/// `m` with `v` for `k`, unless there is a value for `k`.
pub open spec fn added<K, V>(m: Map<K, V>, k: K, v: V) -> Map<K, V> {
    if m.contains_key(k) {
        m
    } else {
        m.insert(k, v)
    }
}

/// `m` with `v` for `k`, where there is a value for `k`.
pub open spec fn changed<K, V>(m: Map<K, V>, k: K, v: V) -> Map<K, V> {
    if m.contains_key(k) {
        m.insert(k, v)
    } else {
        m
    }
}

/// What a change makes of the database.
pub open spec fn applied(t: Tables, w: WriteModel) -> Tables {
    match w {
        WriteModel::AddUser { user_id, username } => Tables {
            users: added(t.users, user_id, username),
            ..t
        },
        WriteModel::RenameUser { user_id, username } => Tables {
            users: changed(t.users, user_id, username),
            ..t
        },
        WriteModel::AddUserName { user_id, username } => Tables {
            user_names: t.user_names.push((user_id, username)),
            ..t
        },
        WriteModel::AddGuild { guild_id, guild_name } => Tables {
            guilds: added(t.guilds, guild_id, guild_name),
            ..t
        },
        WriteModel::RenameGuild { guild_id, guild_name } => Tables {
            guilds: changed(t.guilds, guild_id, guild_name),
            ..t
        },
        WriteModel::AddMember { user_id, guild_id, nickname } => Tables {
            members: added(t.members, (user_id, guild_id), nickname),
            ..t
        },
        WriteModel::RenameMember { user_id, guild_id, nickname } => Tables {
            members: changed(t.members, (user_id, guild_id), nickname),
            ..t
        },
        WriteModel::AddNickname { user_id, guild_id, nickname } => Tables {
            nicknames: t.nicknames.push(((user_id, guild_id), nickname)),
            ..t
        },
        WriteModel::AddMessage {
            message_id,
            user_id,
            channel_id,
            guild_id,
            content,
            created_at,
        } => Tables {
            messages: added(t.messages, message_id, (user_id, channel_id, guild_id, content)),
            ..t
        },
        WriteModel::AddEdit { message_id, channel_id, guild_id, new_content } => Tables {
            edits: t.edits.push((message_id, channel_id, guild_id, new_content)),
            ..t
        },
        WriteModel::AddDeletion { message_id, channel_id, guild_id } => Tables {
            deletions: t.deletions.push((message_id, channel_id, guild_id)),
            ..t
        },
        WriteModel::SeeUser { .. } => t,
        WriteModel::SeeGuild { .. } => t,
        WriteModel::SeeMember { .. } => t,
    }
}

/// What changes make of the database, one after the other.
pub open spec fn applied_all(t: Tables, ws: Seq<WriteModel>) -> Tables
    decreases ws.len(),
{
    if ws.len() == 0 {
        t
    } else {
        applied(applied_all(t, ws.drop_last()), ws.last())
    }
}

/// The value for `k`, if there is one.
pub open spec fn on_record<K, V>(m: Map<K, V>, k: K) -> Option<V> {
    if m.contains_key(k) {
        Some(m[k])
    } else {
        None
    }
}

proof fn lemma_one(t: Tables, w: WriteModel)
    ensures
        applied_all(t, seq![w]) == applied(t, w),
{
    assert(seq![w].drop_last() =~= Seq::<WriteModel>::empty());
    assert(applied_all(t, Seq::<WriteModel>::empty()) == t);
}

proof fn lemma_two(t: Tables, v: WriteModel, w: WriteModel)
    ensures
        applied_all(t, seq![v, w]) == applied(applied(t, v), w),
{
    assert(seq![v, w].drop_last() =~= seq![v]);
    lemma_one(t, v);
}

/// The database after a user was seen, the name on record looked up first.
pub open spec fn user_seen(t: Tables, user_id: i64, username: Seq<char>) -> Tables {
    applied_all(t, user_writes(on_record(t.users, user_id), user_id, username))
}

/// Once a user was seen, the name on record is the current one, and the history
/// has grown by it exactly where it is new; nothing else changes.
pub proof fn law_user_history(t: Tables, user_id: i64, username: Seq<char>)
    ensures
        user_seen(t, user_id, username) == (Tables {
            users: t.users.insert(user_id, username),
            user_names: if on_record(t.users, user_id) == Some(username) {
                t.user_names
            } else {
                t.user_names.push((user_id, username))
            },
            ..t
        }),
{
    match on_record(t.users, user_id) {
        Some(name) if name == username => {
            lemma_one(t, WriteModel::SeeUser { user_id });
            assert(t.users.insert(user_id, username) =~= t.users);
        },
        Some(_) => {
            lemma_two(
                t,
                WriteModel::RenameUser { user_id, username },
                WriteModel::AddUserName { user_id, username },
            );
        },
        None => {
            lemma_two(
                t,
                WriteModel::AddUser { user_id, username },
                WriteModel::AddUserName { user_id, username },
            );
        },
    }
}

/// Once a guild was seen, the name on record is the current one; nothing else
/// changes.
pub proof fn law_guild_name(t: Tables, guild_id: i64, guild_name: Seq<char>)
    ensures
        applied_all(t, guild_writes(on_record(t.guilds, guild_id), guild_id, guild_name)) == (
        Tables { guilds: t.guilds.insert(guild_id, guild_name), ..t }),
{
    match on_record(t.guilds, guild_id) {
        Some(name) if name == guild_name => {
            lemma_one(t, WriteModel::SeeGuild { guild_id });
            assert(t.guilds.insert(guild_id, guild_name) =~= t.guilds);
        },
        Some(_) => {
            lemma_one(t, WriteModel::RenameGuild { guild_id, guild_name });
        },
        None => {
            lemma_one(t, WriteModel::AddGuild { guild_id, guild_name });
        },
    }
}

/// The database after a member was seen, the row on record looked up first.
pub open spec fn member_seen(
    t: Tables,
    user_id: i64,
    guild_id: i64,
    nickname: Option<Seq<char>>,
) -> Tables {
    applied_all(
        t,
        member_writes(on_record(t.members, (user_id, guild_id)), user_id, guild_id, nickname),
    )
}

/// Once a member was seen, the nickname on record is the current one, and the
/// history has grown by it exactly where it is new; nothing else changes.
pub proof fn law_member_history(
    t: Tables,
    user_id: i64,
    guild_id: i64,
    nickname: Option<Seq<char>>,
)
    ensures
        member_seen(t, user_id, guild_id, nickname) == (Tables {
            members: t.members.insert((user_id, guild_id), nickname),
            nicknames: if on_record(t.members, (user_id, guild_id)) == Some(nickname) {
                t.nicknames
            } else {
                t.nicknames.push(((user_id, guild_id), nickname))
            },
            ..t
        }),
{
    match on_record(t.members, (user_id, guild_id)) {
        Some(known) if known == nickname => {
            lemma_one(t, WriteModel::SeeMember { user_id, guild_id });
            assert(t.members.insert((user_id, guild_id), nickname) =~= t.members);
        },
        Some(_) => {
            lemma_two(
                t,
                WriteModel::RenameMember { user_id, guild_id, nickname },
                WriteModel::AddNickname { user_id, guild_id, nickname },
            );
        },
        None => {
            lemma_two(
                t,
                WriteModel::AddMember { user_id, guild_id, nickname },
                WriteModel::AddNickname { user_id, guild_id, nickname },
            );
        },
    }
}

/// The last name that a history holds for `k`.
pub open spec fn latest<K, V>(history: Seq<(K, V)>, k: K) -> Option<V>
    decreases history.len(),
{
    if history.len() == 0 {
        None
    } else if history.last().0 == k {
        Some(history.last().1)
    } else {
        latest(history.drop_last(), k)
    }
}

/// For every user and every member the history ends with what is on record.
pub open spec fn histories_agree(t: Tables) -> bool {
    &&& forall|u: i64| #[trigger] latest(t.user_names, u) == on_record(t.users, u)
    &&& forall|m: (i64, i64)| #[trigger] latest(t.nicknames, m) == on_record(t.members, m)
}

/// However users and members are seen, the histories keep ending with what is
/// on record.
pub proof fn law_histories_agree(
    t: Tables,
    user_id: i64,
    username: Seq<char>,
    guild_id: i64,
    nickname: Option<Seq<char>>,
)
    requires
        histories_agree(t),
    ensures
        histories_agree(user_seen(t, user_id, username)),
        histories_agree(member_seen(t, user_id, guild_id, nickname)),
{
    law_user_history(t, user_id, username);
    law_member_history(t, user_id, guild_id, nickname);
    let a = user_seen(t, user_id, username);
    let b = member_seen(t, user_id, guild_id, nickname);
    let e = (user_id, username);
    let f = ((user_id, guild_id), nickname);
    assert(t.user_names.push(e).drop_last() =~= t.user_names);
    assert(t.nicknames.push(f).drop_last() =~= t.nicknames);
    assert forall|u: i64| #[trigger] latest(a.user_names, u) == on_record(a.users, u) by {
        assert(latest(t.user_names, u) == on_record(t.users, u));
    }
    assert forall|m: (i64, i64)| #[trigger] latest(a.nicknames, m) == on_record(a.members, m) by {
        assert(latest(t.nicknames, m) == on_record(t.members, m));
    }
    assert forall|u: i64| #[trigger] latest(b.user_names, u) == on_record(b.users, u) by {
        assert(latest(t.user_names, u) == on_record(t.users, u));
    }
    assert forall|m: (i64, i64)| #[trigger] latest(b.nicknames, m) == on_record(b.members, m) by {
        assert(latest(t.nicknames, m) == on_record(t.members, m));
    }
}

/// A message that is recorded twice stays as it was recorded first.
pub proof fn law_message_recorded_once(t: Tables, first: WriteModel, again: WriteModel)
    requires
        first is AddMessage,
        again is AddMessage,
        first->AddMessage_message_id == again->AddMessage_message_id,
    ensures
        applied(applied(t, first), again) == applied(t, first),
{
}

/// A question to the database.
#[derive(Debug, Clone, Copy, PartialEq, Eq, Structural)]
pub enum Read {
    /// The name of a user.
    Username { user_id: i64 },
    /// The name of a guild.
    GuildName { guild_id: i64 },
    /// The nickname of a member.
    Nickname { user_id: i64, guild_id: i64 },
    /// How many messages a user wrote.
    UserMessages { user_id: i64 },
    /// How many edits a user's messages had.
    UserEdits { user_id: i64 },
    /// How many of a user's messages were deleted.
    UserDeletions { user_id: i64 },
    /// A user's nicknames by guild.
    UserNicknames { user_id: i64 },
    /// How many messages there are.
    Messages,
    /// How many edits there are.
    Edits,
    /// How many deletions there are.
    Deletions,
    /// How many users there are.
    Users,
    /// How many guilds there are.
    Guilds,
    /// The users with the most messages, no more than `limit`.
    TopAuthors { limit: i64 },
}

/// The statement that asks the question.
pub open spec fn read_sql(r: Read) -> Seq<char> {
    match r {
        Read::Username { .. } => SELECT_USERNAME@,
        Read::GuildName { .. } => SELECT_GUILD_NAME@,
        Read::Nickname { .. } => SELECT_NICKNAME@,
        Read::UserMessages { .. } => COUNT_USER_MESSAGES@,
        Read::UserEdits { .. } => COUNT_USER_EDITS@,
        Read::UserDeletions { .. } => COUNT_USER_DELETIONS@,
        Read::UserNicknames { .. } => SELECT_USER_NICKNAMES@,
        Read::Messages => COUNT_MESSAGES@,
        Read::Edits => COUNT_EDITS@,
        Read::Deletions => COUNT_DELETIONS@,
        Read::Users => COUNT_USERS@,
        Read::Guilds => COUNT_GUILDS@,
        Read::TopAuthors { .. } => SELECT_TOP_AUTHORS@,
    }
}

/// The values bound to the statement, in order.
pub open spec fn read_params(r: Read) -> Seq<i64> {
    match r {
        Read::Username { user_id } => seq![user_id],
        Read::GuildName { guild_id } => seq![guild_id],
        Read::Nickname { user_id, guild_id } => seq![user_id, guild_id],
        Read::UserMessages { user_id } => seq![user_id],
        Read::UserEdits { user_id } => seq![user_id],
        Read::UserDeletions { user_id } => seq![user_id],
        Read::UserNicknames { user_id } => seq![user_id],
        Read::TopAuthors { limit } => seq![limit],
        _ => Seq::empty(),
    }
}

impl Read {
    /// The statement that asks the question.
    pub fn sql(&self) -> (s: &'static str)
        ensures
            s@ == read_sql(*self),
    {
        match self {
            Read::Username { .. } => SELECT_USERNAME,
            Read::GuildName { .. } => SELECT_GUILD_NAME,
            Read::Nickname { .. } => SELECT_NICKNAME,
            Read::UserMessages { .. } => COUNT_USER_MESSAGES,
            Read::UserEdits { .. } => COUNT_USER_EDITS,
            Read::UserDeletions { .. } => COUNT_USER_DELETIONS,
            Read::UserNicknames { .. } => SELECT_USER_NICKNAMES,
            Read::Messages => COUNT_MESSAGES,
            Read::Edits => COUNT_EDITS,
            Read::Deletions => COUNT_DELETIONS,
            Read::Users => COUNT_USERS,
            Read::Guilds => COUNT_GUILDS,
            Read::TopAuthors { .. } => SELECT_TOP_AUTHORS,
        }
    }

    /// The values bound to the statement, in order.
    pub fn params(&self) -> (out: Vec<i64>)
        ensures
            out@ == read_params(*self),
    {
        let mut out: Vec<i64> = Vec::new();
        match self {
            Read::Username { user_id } => out.push(*user_id),
            Read::GuildName { guild_id } => out.push(*guild_id),
            Read::Nickname { user_id, guild_id } => {
                out.push(*user_id);
                out.push(*guild_id);
            },
            Read::UserMessages { user_id } => out.push(*user_id),
            Read::UserEdits { user_id } => out.push(*user_id),
            Read::UserDeletions { user_id } => out.push(*user_id),
            Read::UserNicknames { user_id } => out.push(*user_id),
            Read::TopAuthors { limit } => out.push(*limit),
            _ => {},
        }
        assert(out@ =~= read_params(*self));
        out
    }
}

/// For each part of what is known of a user, the question that it answers.
pub struct UserReads {
    pub messages: Read,
    pub edits: Read,
    pub deletions: Read,
    pub nicknames: Read,
}

/// The questions behind what is known of a user.
pub fn user_reads(user_id: i64) -> (r: UserReads)
    ensures
        r.messages == (Read::UserMessages { user_id }),
        r.edits == (Read::UserEdits { user_id }),
        r.deletions == (Read::UserDeletions { user_id }),
        r.nicknames == (Read::UserNicknames { user_id }),
{
    UserReads {
        messages: Read::UserMessages { user_id },
        edits: Read::UserEdits { user_id },
        deletions: Read::UserDeletions { user_id },
        nicknames: Read::UserNicknames { user_id },
    }
}

/// For each part of what is known overall, the question that it answers.
pub struct OverviewReads {
    pub messages: Read,
    pub edits: Read,
    pub deletions: Read,
    pub users: Read,
    pub guilds: Read,
}

/// The questions behind what is known overall.
pub fn overview_reads() -> (r: OverviewReads)
    ensures
        r.messages == Read::Messages,
        r.edits == Read::Edits,
        r.deletions == Read::Deletions,
        r.users == Read::Users,
        r.guilds == Read::Guilds,
{
    OverviewReads {
        messages: Read::Messages,
        edits: Read::Edits,
        deletions: Read::Deletions,
        users: Read::Users,
        guilds: Read::Guilds,
    }
}

/// What is known of a user.
#[derive(Debug, Clone)]
pub struct UserStats {
    pub user_id: i64,
    pub messages: i64,
    pub edits: i64,
    pub deletions: i64,
    /// For each guild its id, its name where it is known, and the nickname.
    pub nicknames: Vec<(i64, Option<String>, String)>,
}

/// What is known overall.
#[derive(Debug, Clone)]
pub struct OverviewStats {
    pub messages: i64,
    pub edits: i64,
    pub deletions: i64,
    pub users: i64,
    pub guilds: i64,
}

/// A user and the number of messages.
#[derive(Debug, Clone)]
pub struct TopAuthor {
    pub user_id: i64,
    pub username: Option<String>,
    pub messages: i64,
}

/// A row of the nickname query: guild, nickname and the guild's name.
pub struct NicknameRow {
    pub guild_id: i64,
    pub nickname: String,
    pub guild_name: Option<String>,
}

/// Puts together what is known of a user from the answers to [`user_reads`]: the
/// three counts and the rows of the nickname query, in their order.
pub fn user_stats(
    user_id: i64,
    messages: i64,
    edits: i64,
    deletions: i64,
    rows: Vec<NicknameRow>,
) -> (out: UserStats)
    ensures
        out.user_id == user_id,
        out.messages == messages,
        out.edits == edits,
        out.deletions == deletions,
        out.nicknames@.map_values(|n: (i64, Option<String>, String)| (n.0, opt_text(n.1), n.2@))
            == rows@.map_values(
            |r: NicknameRow| (r.guild_id, opt_text(r.guild_name), r.nickname@),
        ),
{
    let ghost shown = |n: (i64, Option<String>, String)| (n.0, opt_text(n.1), n.2@);
    let ghost read = |r: NicknameRow| (r.guild_id, opt_text(r.guild_name), r.nickname@);
    let mut nicknames: Vec<(i64, Option<String>, String)> = Vec::new();
    let mut i: usize = 0;
    assert(nicknames@.map_values(shown) =~= rows@.take(0).map_values(read));
    while i < rows.len()
        invariant
            i <= rows.len(),
            shown == (|n: (i64, Option<String>, String)| (n.0, opt_text(n.1), n.2@)),
            read == (|r: NicknameRow| (r.guild_id, opt_text(r.guild_name), r.nickname@)),
            nicknames@.map_values(shown) == rows@.take(i as int).map_values(read),
        decreases rows.len() - i,
    {
        let ghost so_far = nicknames@.map_values(shown);
        let row = &rows[i];
        let item = (row.guild_id, copy_text(&row.guild_name), row.nickname.clone());
        let ghost added = item;
        nicknames.push(item);
        assert(nicknames@.map_values(shown) =~= so_far.push(shown(added)));
        assert(rows@.take(i + 1).map_values(read) =~= rows@.take(i as int).map_values(read).push(
            read(rows@[i as int]),
        ));
        i += 1;
    }
    assert(rows@.take(i as int) == rows@);
    UserStats { user_id, messages, edits, deletions, nicknames }
}

/// The integer bound at the index `i`.
pub open spec fn int_at(ps: Seq<ParamModel>, i: int) -> i64 {
    match ps[i] {
        ParamModel::Int(n) => n,
        _ => 0,
    }
}

/// The optional integer bound at the index `i`.
pub open spec fn opt_int_at(ps: Seq<ParamModel>, i: int) -> Option<i64> {
    match ps[i] {
        ParamModel::OptInt(n) => n,
        _ => None,
    }
}

/// The text bound at the index `i`.
pub open spec fn text_at(ps: Seq<ParamModel>, i: int) -> Seq<char> {
    match ps[i] {
        ParamModel::Text(s) => s,
        _ => Seq::empty(),
    }
}

/// The optional text bound at the index `i`.
pub open spec fn opt_text_at(ps: Seq<ParamModel>, i: int) -> Option<Seq<char>> {
    match ps[i] {
        ParamModel::OptText(s) => s,
        _ => None,
    }
}

/// What a statement with these bound values does to the database: each value
/// goes where the statement's columns and conditions have its number, which
/// counts from one.
pub open spec fn executed(t: Tables, sql: Seq<char>, ps: Seq<ParamModel>) -> Tables {
    if sql == ADD_USER@ {
        Tables { users: added(t.users, int_at(ps, 0), text_at(ps, 1)), ..t }
    } else if sql == RENAME_USER@ {
        Tables { users: changed(t.users, int_at(ps, 2), text_at(ps, 0)), ..t }
    } else if sql == ADD_USER_NAME@ {
        Tables { user_names: t.user_names.push((int_at(ps, 0), text_at(ps, 1))), ..t }
    } else if sql == ADD_GUILD@ {
        Tables { guilds: added(t.guilds, int_at(ps, 0), text_at(ps, 1)), ..t }
    } else if sql == RENAME_GUILD@ {
        Tables { guilds: changed(t.guilds, int_at(ps, 2), text_at(ps, 0)), ..t }
    } else if sql == ADD_MEMBER@ {
        Tables {
            members: added(t.members, (int_at(ps, 0), int_at(ps, 1)), opt_text_at(ps, 2)),
            ..t
        }
    } else if sql == RENAME_MEMBER@ {
        Tables {
            members: changed(t.members, (int_at(ps, 2), int_at(ps, 3)), opt_text_at(ps, 0)),
            ..t
        }
    } else if sql == ADD_NICKNAME@ {
        Tables {
            nicknames: t.nicknames.push(((int_at(ps, 0), int_at(ps, 1)), opt_text_at(ps, 2))),
            ..t
        }
    } else if sql == ADD_MESSAGE@ {
        Tables {
            messages: added(
                t.messages,
                int_at(ps, 0),
                (int_at(ps, 1), int_at(ps, 2), opt_int_at(ps, 3), text_at(ps, 4)),
            ),
            ..t
        }
    } else if sql == ADD_EDIT@ {
        Tables {
            edits: t.edits.push(
                (int_at(ps, 0), int_at(ps, 1), opt_int_at(ps, 2), text_at(ps, 3)),
            ),
            ..t
        }
    } else if sql == ADD_DELETION@ {
        Tables {
            deletions: t.deletions.push((int_at(ps, 0), int_at(ps, 1), opt_int_at(ps, 2))),
            ..t
        }
    } else {
        t
    }
}

proof fn lemma_statements_differ()
    ensures
        ADD_USER@ != RENAME_USER@,
        ADD_USER@ != SEE_USER@,
        ADD_USER@ != ADD_USER_NAME@,
        ADD_USER@ != ADD_GUILD@,
        ADD_USER@ != RENAME_GUILD@,
        ADD_USER@ != SEE_GUILD@,
        ADD_USER@ != ADD_MEMBER@,
        ADD_USER@ != RENAME_MEMBER@,
        ADD_USER@ != SEE_MEMBER@,
        ADD_USER@ != ADD_NICKNAME@,
        ADD_USER@ != ADD_MESSAGE@,
        ADD_USER@ != ADD_EDIT@,
        ADD_USER@ != ADD_DELETION@,
        RENAME_USER@ != SEE_USER@,
        RENAME_USER@ != ADD_USER_NAME@,
        RENAME_USER@ != ADD_GUILD@,
        RENAME_USER@ != RENAME_GUILD@,
        RENAME_USER@ != SEE_GUILD@,
        RENAME_USER@ != ADD_MEMBER@,
        RENAME_USER@ != RENAME_MEMBER@,
        RENAME_USER@ != SEE_MEMBER@,
        RENAME_USER@ != ADD_NICKNAME@,
        RENAME_USER@ != ADD_MESSAGE@,
        RENAME_USER@ != ADD_EDIT@,
        RENAME_USER@ != ADD_DELETION@,
        SEE_USER@ != ADD_USER_NAME@,
        SEE_USER@ != ADD_GUILD@,
        SEE_USER@ != RENAME_GUILD@,
        SEE_USER@ != SEE_GUILD@,
        SEE_USER@ != ADD_MEMBER@,
        SEE_USER@ != RENAME_MEMBER@,
        SEE_USER@ != SEE_MEMBER@,
        SEE_USER@ != ADD_NICKNAME@,
        SEE_USER@ != ADD_MESSAGE@,
        SEE_USER@ != ADD_EDIT@,
        SEE_USER@ != ADD_DELETION@,
        ADD_USER_NAME@ != ADD_GUILD@,
        ADD_USER_NAME@ != RENAME_GUILD@,
        ADD_USER_NAME@ != SEE_GUILD@,
        ADD_USER_NAME@ != ADD_MEMBER@,
        ADD_USER_NAME@ != RENAME_MEMBER@,
        ADD_USER_NAME@ != SEE_MEMBER@,
        ADD_USER_NAME@ != ADD_NICKNAME@,
        ADD_USER_NAME@ != ADD_MESSAGE@,
        ADD_USER_NAME@ != ADD_EDIT@,
        ADD_USER_NAME@ != ADD_DELETION@,
        ADD_GUILD@ != RENAME_GUILD@,
        ADD_GUILD@ != SEE_GUILD@,
        ADD_GUILD@ != ADD_MEMBER@,
        ADD_GUILD@ != RENAME_MEMBER@,
        ADD_GUILD@ != SEE_MEMBER@,
        ADD_GUILD@ != ADD_NICKNAME@,
        ADD_GUILD@ != ADD_MESSAGE@,
        ADD_GUILD@ != ADD_EDIT@,
        ADD_GUILD@ != ADD_DELETION@,
        RENAME_GUILD@ != SEE_GUILD@,
        RENAME_GUILD@ != ADD_MEMBER@,
        RENAME_GUILD@ != RENAME_MEMBER@,
        RENAME_GUILD@ != SEE_MEMBER@,
        RENAME_GUILD@ != ADD_NICKNAME@,
        RENAME_GUILD@ != ADD_MESSAGE@,
        RENAME_GUILD@ != ADD_EDIT@,
        RENAME_GUILD@ != ADD_DELETION@,
        SEE_GUILD@ != ADD_MEMBER@,
        SEE_GUILD@ != RENAME_MEMBER@,
        SEE_GUILD@ != SEE_MEMBER@,
        SEE_GUILD@ != ADD_NICKNAME@,
        SEE_GUILD@ != ADD_MESSAGE@,
        SEE_GUILD@ != ADD_EDIT@,
        SEE_GUILD@ != ADD_DELETION@,
        ADD_MEMBER@ != RENAME_MEMBER@,
        ADD_MEMBER@ != SEE_MEMBER@,
        ADD_MEMBER@ != ADD_NICKNAME@,
        ADD_MEMBER@ != ADD_MESSAGE@,
        ADD_MEMBER@ != ADD_EDIT@,
        ADD_MEMBER@ != ADD_DELETION@,
        RENAME_MEMBER@ != SEE_MEMBER@,
        RENAME_MEMBER@ != ADD_NICKNAME@,
        RENAME_MEMBER@ != ADD_MESSAGE@,
        RENAME_MEMBER@ != ADD_EDIT@,
        RENAME_MEMBER@ != ADD_DELETION@,
        SEE_MEMBER@ != ADD_NICKNAME@,
        SEE_MEMBER@ != ADD_MESSAGE@,
        SEE_MEMBER@ != ADD_EDIT@,
        SEE_MEMBER@ != ADD_DELETION@,
        ADD_NICKNAME@ != ADD_MESSAGE@,
        ADD_NICKNAME@ != ADD_EDIT@,
        ADD_NICKNAME@ != ADD_DELETION@,
        ADD_MESSAGE@ != ADD_EDIT@,
        ADD_MESSAGE@ != ADD_DELETION@,
        ADD_EDIT@ != ADD_DELETION@,
{
    reveal_strlit("INSERT INTO users (user_id, username, last_seen) VALUES ($1, $2, $3) ON CONFLICT (user_id) DO NOTHING");
    reveal_strlit("UPDATE users SET username = $1, last_seen = $2 WHERE user_id = $3");
    reveal_strlit("UPDATE users SET last_seen = $1 WHERE user_id = $2");
    reveal_strlit("INSERT INTO user_names (user_id, username, recorded_at) VALUES ($1, $2, $3)");
    reveal_strlit("INSERT INTO guilds (guild_id, guild_name, last_seen) VALUES ($1, $2, $3) ON CONFLICT (guild_id) DO NOTHING");
    reveal_strlit("UPDATE guilds SET guild_name = $1, last_seen = $2 WHERE guild_id = $3");
    reveal_strlit("UPDATE guilds SET last_seen = $1 WHERE guild_id = $2");
    reveal_strlit("INSERT INTO guild_members (user_id, guild_id, nickname, last_seen) VALUES ($1, $2, $3, $4) ON CONFLICT (user_id, guild_id) DO NOTHING");
    reveal_strlit("UPDATE guild_members SET nickname = $1, last_seen = $2 WHERE user_id = $3 AND guild_id = $4");
    reveal_strlit("UPDATE guild_members SET last_seen = $1 WHERE user_id = $2 AND guild_id = $3");
    reveal_strlit("INSERT INTO guild_member_nicknames (user_id, guild_id, nickname, recorded_at) VALUES ($1, $2, $3, $4)");
    reveal_strlit("INSERT INTO messages (message_id, user_id, channel_id, guild_id, content, created_at) VALUES ($1, $2, $3, $4, $5, $6) ON CONFLICT (message_id) DO NOTHING");
    reveal_strlit("INSERT INTO message_edits (message_id, channel_id, guild_id, new_content, edited_at) VALUES ($1, $2, $3, $4, $5)");
    reveal_strlit("INSERT INTO message_deletions (message_id, channel_id, guild_id, deleted_at) VALUES ($1, $2, $3, $4)");
    assert(ADD_USER@.len() == 101);
    assert(RENAME_USER@.len() == 65);
    assert(SEE_USER@.len() == 50);
    assert(ADD_USER_NAME@.len() == 75);
    assert(ADD_GUILD@.len() == 106);
    assert(RENAME_GUILD@.len() == 69);
    assert(SEE_GUILD@.len() == 52);
    assert(ADD_MEMBER@.len() == 133);
    assert(RENAME_MEMBER@.len() == 91);
    assert(SEE_MEMBER@.len() == 76);
    assert(ADD_NICKNAME@.len() == 101);
    assert(ADD_MESSAGE@.len() == 153);
    assert(ADD_EDIT@.len() == 112);
    assert(ADD_DELETION@.len() == 100);
    assert(ADD_USER@[12] != ADD_NICKNAME@[12]);
}

/// The statement of a change, with the values bound to it, makes that change.
pub proof fn law_statement_makes_the_change(t: Tables, w: WriteModel)
    ensures
        executed(t, sql_of(w), params_of(w)) == applied(t, w),
{
    lemma_statements_differ();
}

/// A change can be told from its statement and the values bound to it: two
/// different changes never come out as the same.
pub proof fn law_bound_values_tell_the_change(v: WriteModel, w: WriteModel)
    requires
        sql_of(v) == sql_of(w),
        params_of(v) == params_of(w),
    ensures
        v == w,
{
    lemma_statements_differ();
    let p = params_of(v);
    let q = params_of(w);
    assert(p[0] == q[0]);
    assert(p[1] == q[1]);
    if p.len() > 2 {
        assert(p[2] == q[2]);
    }
    if p.len() > 3 {
        assert(p[3] == q[3]);
    }
    if p.len() > 4 {
        assert(p[4] == q[4]);
    }
    if p.len() > 5 {
        assert(p[5] == q[5]);
    }
}

/// Every change is stored with its time, where the statement's time column has
/// its number: the current time, or the time at which a message was written
/// where that is known. Nothing else is bound.
pub proof fn law_time_of_a_change(w: WriteModel)
    ensures
        match w {
            WriteModel::AddMessage { created_at: Some((secs, nanos)), .. } => params_of(w).len()
                == 6 && params_of(w)[5] == ParamModel::At(secs, nanos),
            WriteModel::AddMessage { created_at: None, .. } => params_of(w).len() == 6 && params_of(
                w,
            )[5] == ParamModel::Now,
            WriteModel::AddEdit { .. } => params_of(w).len() == 5 && params_of(w)[4]
                == ParamModel::Now,
            WriteModel::AddDeletion { .. } => params_of(w).len() == 4 && params_of(w)[3]
                == ParamModel::Now,
            WriteModel::AddUser { .. } | WriteModel::AddUserName { .. }
            | WriteModel::AddGuild { .. } => params_of(w).len() == 3 && params_of(w)[2]
                == ParamModel::Now,
            WriteModel::AddMember { .. } | WriteModel::AddNickname { .. } => params_of(w).len() == 4
                && params_of(w)[3] == ParamModel::Now,
            WriteModel::RenameUser { .. } | WriteModel::RenameGuild { .. } => params_of(w).len()
                == 3 && params_of(w)[1] == ParamModel::Now,
            WriteModel::RenameMember { .. } => params_of(w).len() == 4 && params_of(w)[1]
                == ParamModel::Now,
            WriteModel::SeeUser { user_id } => params_of(w) == seq![
                ParamModel::Now,
                ParamModel::Int(user_id),
            ],
            WriteModel::SeeGuild { guild_id } => params_of(w) == seq![
                ParamModel::Now,
                ParamModel::Int(guild_id),
            ],
            WriteModel::SeeMember { user_id, guild_id } => params_of(w) == seq![
                ParamModel::Now,
                ParamModel::Int(user_id),
                ParamModel::Int(guild_id),
            ],
        },
{
}

/// Whoever is seen is marked as seen: the first change stamps the row of just
/// that user, guild or member, and creates it where there is none.
pub proof fn law_seen_is_stamped(
    user: Option<Seq<char>>,
    member: Option<Option<Seq<char>>>,
    user_id: i64,
    guild_id: i64,
    name: Seq<char>,
    nickname: Option<Seq<char>>,
)
    ensures
        user_writes(user, user_id, name)[0] == (if user is None {
            WriteModel::AddUser { user_id, username: name }
        } else if user == Some(name) {
            WriteModel::SeeUser { user_id }
        } else {
            WriteModel::RenameUser { user_id, username: name }
        }),
        guild_writes(user, guild_id, name)[0] == (if user is None {
            WriteModel::AddGuild { guild_id, guild_name: name }
        } else if user == Some(name) {
            WriteModel::SeeGuild { guild_id }
        } else {
            WriteModel::RenameGuild { guild_id, guild_name: name }
        }),
        guild_writes(user, guild_id, name).len() == 1,
        member_writes(member, user_id, guild_id, nickname)[0] == (if member is None {
            WriteModel::AddMember { user_id, guild_id, nickname }
        } else if member == Some(nickname) {
            WriteModel::SeeMember { user_id, guild_id }
        } else {
            WriteModel::RenameMember { user_id, guild_id, nickname }
        }),
{
}

/// Each question is asked with its own statement and is about just what it
/// names.
pub proof fn law_questions(user_id: i64, guild_id: i64, limit: i64)
    ensures
        read_sql(Read::Username { user_id })
            == "SELECT username FROM users WHERE user_id = $1"@,
        read_params(Read::Username { user_id }) == seq![user_id],
        read_sql(Read::GuildName { guild_id })
            == "SELECT guild_name FROM guilds WHERE guild_id = $1"@,
        read_params(Read::GuildName { guild_id }) == seq![guild_id],
        read_sql(Read::Nickname { user_id, guild_id })
            == "SELECT nickname FROM guild_members WHERE user_id = $1 AND guild_id = $2"@,
        read_params(Read::Nickname { user_id, guild_id }) == seq![user_id, guild_id],
        read_params(Read::UserMessages { user_id }) == seq![user_id],
        read_params(Read::UserEdits { user_id }) == seq![user_id],
        read_params(Read::UserDeletions { user_id }) == seq![user_id],
        read_params(Read::UserNicknames { user_id }) == seq![user_id],
        read_params(Read::TopAuthors { limit }) == seq![limit],
{
}

/// A row without a nickname is a row all the same.
pub proof fn law_rows_on_record(nickname: Option<String>)
    ensures
        row_text(None) is None,
        row_text(Some(nickname)) == Some(opt_text(nickname)),
{
}

/// The model of a change holds all that the value holds, its texts as characters.
pub proof fn law_model_of_write(x: Write)
    ensures
        x@ == (match x {
            Write::AddUser { user_id, username } => WriteModel::AddUser {
                user_id,
                username: username@,
            },
            Write::RenameUser { user_id, username } => WriteModel::RenameUser {
                user_id,
                username: username@,
            },
            Write::SeeUser { user_id } => WriteModel::SeeUser { user_id },
            Write::AddUserName { user_id, username } => WriteModel::AddUserName {
                user_id,
                username: username@,
            },
            Write::AddGuild { guild_id, guild_name } => WriteModel::AddGuild {
                guild_id,
                guild_name: guild_name@,
            },
            Write::RenameGuild { guild_id, guild_name } => WriteModel::RenameGuild {
                guild_id,
                guild_name: guild_name@,
            },
            Write::SeeGuild { guild_id } => WriteModel::SeeGuild { guild_id },
            Write::AddMember { user_id, guild_id, nickname } => WriteModel::AddMember {
                user_id,
                guild_id,
                nickname: opt_text(nickname),
            },
            Write::RenameMember { user_id, guild_id, nickname } => WriteModel::RenameMember {
                user_id,
                guild_id,
                nickname: opt_text(nickname),
            },
            Write::SeeMember { user_id, guild_id } => WriteModel::SeeMember { user_id, guild_id },
            Write::AddNickname { user_id, guild_id, nickname } => WriteModel::AddNickname {
                user_id,
                guild_id,
                nickname: opt_text(nickname),
            },
            Write::AddMessage {
                message_id,
                user_id,
                channel_id,
                guild_id,
                content,
                created_at,
            } => WriteModel::AddMessage {
                message_id,
                user_id,
                channel_id,
                guild_id,
                content: content@,
                created_at,
            },
            Write::AddEdit {
                message_id,
                channel_id,
                guild_id,
                new_content,
            } => WriteModel::AddEdit {
                message_id,
                channel_id,
                guild_id,
                new_content: new_content@,
            },
            Write::AddDeletion { message_id, channel_id, guild_id } => WriteModel::AddDeletion {
                message_id,
                channel_id,
                guild_id,
            },
        }),
{
}

/// The model of a bound value holds all that the value holds, its texts as characters.
pub proof fn law_model_of_param(x: Param)
    ensures
        x@ == (match x {
            Param::Int(n) => ParamModel::Int(n),
            Param::OptInt(n) => ParamModel::OptInt(n),
            Param::Text(s) => ParamModel::Text(s@),
            Param::OptText(s) => ParamModel::OptText(opt_text(s)),
            Param::Now => ParamModel::Now,
            Param::At(secs, nanos) => ParamModel::At(secs, nanos),
        }),
{
}

/// The models of changes stand for them one for one, in their order.
pub proof fn law_models_one_for_one(s: Seq<Write>, i: int)
    ensures
        writes_of(s).len() == s.len(),
        0 <= i < s.len() ==> writes_of(s)[i] == s[i]@,
{
}

} // verus!
