//! The Discord gateway: what a connection does with each thing that arrives on
//! it, when to reconnect, and what a message event leads to.

use vstd::prelude::*;

use crate::json::{accepts, bool_at, opt_text, quote, str_at, u64_at};
use crate::text::{cat2, cat3, cat4, cat5, parse_u64, print_u64, same};

verus! {

/// Where the gateway is reached.
pub const GATEWAY_URL: &'static str = "wss://gateway.discord.gg/?v=10&encoding=json";

/// The longest pause before a reconnection, in milliseconds.
pub const MAX_BACKOFF_MS: u64 = 60000;

/// The pause before the first reconnection, in milliseconds.
pub const FIRST_BACKOFF_MS: u64 = 1000;

/// How many lines the gateway's log keeps.
pub const LOG_MAX_LINES: usize = 40;

/// The intent bit 9, `GUILD_MESSAGES`.
pub const INTENT_GUILD_MESSAGES: u64 = 512;

/// The intent bit 15, `MESSAGE_CONTENT`, which is privileged.
pub const INTENT_MESSAGE_CONTENT: u64 = 32768;

/// How a connection ended.
pub enum ConnectOutcome {
    /// Abnormally: reconnect after a pause that grows.
    Disconnected(String),
    /// The server asked for a new connection.
    CleanRestart,
    /// The configuration is refused: reconnecting would fail in the same way.
    Fatal(String),
    /// A stop was requested.
    Stopped,
}

/// How a connection ended, with the reason as characters.
pub enum OutcomeModel {
    Disconnected(Seq<char>),
    CleanRestart,
    Fatal(Seq<char>),
    Stopped,
}

impl View for ConnectOutcome {
    type V = OutcomeModel;

    open spec fn view(&self) -> OutcomeModel {
        match *self {
            ConnectOutcome::Disconnected(reason) => OutcomeModel::Disconnected(reason@),
            ConnectOutcome::CleanRestart => OutcomeModel::CleanRestart,
            ConnectOutcome::Fatal(reason) => OutcomeModel::Fatal(reason@),
            ConnectOutcome::Stopped => OutcomeModel::Stopped,
        }
    }
}

/// What happened on a connection.
pub enum Input {
    /// The connection could not be opened.
    DialFailed(String),
    /// A message with text arrived.
    Text(String),
    /// A message without readable text arrived.
    Unreadable,
    /// The server closed, with a code and a reason if it gave them.
    Closed(Option<(u16, String)>),
    /// Reading failed.
    Failed(String),
    /// Nothing more will arrive.
    Ended,
    /// The identification could not be sent.
    IdentifyFailed(String),
    /// A stop was requested.
    StopRequested,
}

/// What a connection does next.
pub enum Command {
    /// Read on.
    Read,
    /// Send the identification and start a heartbeat of this period.
    Identify { payload: String, heartbeat_ms: u64 },
    /// Send a heartbeat at once.
    Beat { payload: String },
    /// The session is ready for this user and application.
    Ready { user: String, app_id: String },
    /// A message was created.
    Create,
    /// A message was edited.
    Update,
    /// A message was deleted.
    Delete,
    /// A command was used.
    Interaction,
    /// Close the connection.
    Finish(ConnectOutcome),
}

/// What a connection does next, with texts as characters.
pub enum CommandModel {
    Read,
    Identify { payload: Seq<char>, heartbeat_ms: u64 },
    Beat { payload: Seq<char> },
    Ready { user: Seq<char>, app_id: Seq<char> },
    Create,
    Update,
    Delete,
    Interaction,
    Finish(OutcomeModel),
}

impl View for Command {
    type V = CommandModel;

    open spec fn view(&self) -> CommandModel {
        match *self {
            Command::Read => CommandModel::Read,
            Command::Identify { payload, heartbeat_ms } => CommandModel::Identify {
                payload: payload@,
                heartbeat_ms,
            },
            Command::Beat { payload } => CommandModel::Beat { payload: payload@ },
            Command::Ready { user, app_id } => CommandModel::Ready { user: user@, app_id: app_id@ },
            Command::Create => CommandModel::Create,
            Command::Update => CommandModel::Update,
            Command::Delete => CommandModel::Delete,
            Command::Interaction => CommandModel::Interaction,
            Command::Finish(outcome) => CommandModel::Finish(outcome@),
        }
    }
}

/// The intents that are asked for: the content of messages only where it is
/// logged.
pub open spec fn intents_for(with_db: bool) -> u64 {
    if with_db {
        (INTENT_GUILD_MESSAGES + INTENT_MESSAGE_CONTENT) as u64
    } else {
        INTENT_GUILD_MESSAGES
    }
}

/// The identification document.
pub open spec fn identification(token: Seq<char>, with_db: bool) -> Seq<char> {
    "{\"d\":{\"intents\":"@ + crate::text::decimal(intents_for(with_db) as nat)
        + ",\"properties\":{\"browser\":\"discord_to_insta\",\"device\":\"discord_to_insta\",\"os\":\"linux\"},\"token\":"@
        + crate::json::json_quoted(token) + "},\"op\":2}"@
}

/// Writes the identification document.
pub fn identify_payload(token: &str, with_db: bool) -> (out: String)
    ensures
        out@ == identification(token@, with_db),
{
    let intents: u64 = if with_db {
        INTENT_GUILD_MESSAGES + INTENT_MESSAGE_CONTENT
    } else {
        INTENT_GUILD_MESSAGES
    };
    cat5(
        "{\"d\":{\"intents\":",
        print_u64(intents).as_str(),
        ",\"properties\":{\"browser\":\"discord_to_insta\",\"device\":\"discord_to_insta\",\"os\":\"linux\"},\"token\":",
        quote(token).as_str(),
        "},\"op\":2}",
    )
}

/// The heartbeat document: it carries the last sequence number seen.
pub open spec fn heartbeat(seq: Option<u64>) -> Seq<char> {
    match seq {
        Some(n) => "{\"d\":"@ + crate::text::decimal(n as nat) + ",\"op\":1}"@,
        None => "{\"d\":null,\"op\":1}"@,
    }
}

/// Writes the heartbeat document.
pub fn heartbeat_payload(seq: Option<u64>) -> (out: String)
    ensures
        out@ == heartbeat(seq),
{
    match seq {
        Some(n) => cat3("{\"d\":", print_u64(n).as_str(), ",\"op\":1}"),
        None => "{\"d\":null,\"op\":1}".to_string(),
    }
}

/// The close codes that no reconnection can mend: a refused token and a refused
/// shard, version or set of intents.
pub open spec fn is_fatal(code: u16) -> bool {
    code == 4004 || 4010 <= code <= 4014
}

/// Whether no reconnection can mend a connection closed with `code`.
pub fn fatal(code: u16) -> (r: bool)
    ensures
        r == is_fatal(code),
{
    code == 4004 || (4010 <= code && code <= 4014)
}

/// A close frame as characters.
pub open spec fn close_model(frame: Option<(u16, String)>) -> Option<(u16, Seq<char>)> {
    match frame {
        Some((code, reason)) => Some((code, reason@)),
        None => None,
    }
}

/// What is said of a close frame.
pub open spec fn close_text(frame: Option<(u16, Seq<char>)>) -> Seq<char> {
    match frame {
        Some((code, reason)) => "closed: "@ + crate::text::decimal(code as nat) + " "@ + reason,
        None => "closed"@,
    }
}

/// What is said of a close frame.
pub fn close_reason(frame: &Option<(u16, String)>) -> (out: String)
    ensures
        out@ == close_text(close_model(*frame)),
{
    match frame {
        Some((code, reason)) => cat4(
            "closed: ",
            print_u64(*code as u64).as_str(),
            " ",
            reason.as_str(),
        ),
        None => "closed".to_string(),
    }
}

/// How a connection ends when the server closes it.
pub open spec fn close_outcome(frame: Option<(u16, Seq<char>)>) -> OutcomeModel {
    match frame {
        Some((code, _)) if is_fatal(code) => OutcomeModel::Fatal(close_text(frame)),
        _ => OutcomeModel::Disconnected(close_text(frame)),
    }
}

/// How a connection ends when the server closes it.
pub fn on_close(frame: &Option<(u16, String)>) -> (out: ConnectOutcome)
    ensures
        out@ == close_outcome(close_model(*frame)),
{
    let reason = close_reason(frame);
    let bad = match frame {
        Some((code, _)) => fatal(*code),
        None => false,
    };
    if bad {
        ConnectOutcome::Fatal(reason)
    } else {
        ConnectOutcome::Disconnected(reason)
    }
}

/// What the receive loop reads out of a document.
pub struct Head {
    /// The sequence number.
    pub seq: Option<u64>,
    /// The operation code.
    pub op: Option<u64>,
    /// The name of a dispatched event.
    pub kind: Option<String>,
    /// The user of a session that is ready.
    pub username: Option<String>,
    /// The application of a session that is ready.
    pub application_id: Option<String>,
}

/// What the receive loop reads out of a document, with texts as characters.
pub struct HeadModel {
    pub seq: Option<u64>,
    pub op: Option<u64>,
    pub kind: Option<Seq<char>>,
    pub username: Option<Seq<char>>,
    pub application_id: Option<Seq<char>>,
}

impl View for Head {
    type V = HeadModel;

    open spec fn view(&self) -> HeadModel {
        HeadModel {
            seq: self.seq,
            op: self.op,
            kind: opt_text(self.kind),
            username: opt_text(self.username),
            application_id: opt_text(self.application_id),
        }
    }
}

/// The head of a document.
pub open spec fn head_of(document: Seq<char>) -> HeadModel {
    HeadModel {
        seq: crate::json::json_u64_at(document, "/s"@),
        op: crate::json::json_u64_at(document, "/op"@),
        kind: crate::json::json_str_at(document, "/t"@),
        username: crate::json::json_str_at(document, "/d/user/username"@),
        application_id: crate::json::json_str_at(document, "/d/application/id"@),
    }
}

/// Reads the head of a document.
pub fn read_head(document: &str) -> (out: Head)
    ensures
        out@ == head_of(document@),
{
    Head {
        seq: u64_at(document, "/s"),
        op: u64_at(document, "/op"),
        kind: str_at(document, "/t"),
        username: str_at(document, "/d/user/username"),
        application_id: str_at(document, "/d/application/id"),
    }
}

/// The last sequence number seen once `head` has arrived.
pub open spec fn seq_after(head: HeadModel, known: Option<u64>) -> Option<u64> {
    if head.seq is Some {
        head.seq
    } else {
        known
    }
}

/// `o`, or `otherwise` where there is none.
pub open spec fn text_or(o: Option<Seq<char>>, otherwise: Seq<char>) -> Seq<char> {
    match o {
        Some(s) => s,
        None => otherwise,
    }
}

/// A copy of the text, or `otherwise` where there is none.
pub fn or_text(o: &Option<String>, otherwise: &str) -> (out: String)
    ensures
        out@ == text_or(opt_text(*o), otherwise@),
{
    match o {
        Some(s) => s.clone(),
        None => otherwise.to_string(),
    }
}

/// What a dispatched event leads to.
pub open spec fn on_event(head: HeadModel) -> CommandModel {
    match head.kind {
        None => CommandModel::Read,
        Some(kind) => if kind == "READY"@ {
            CommandModel::Ready {
                user: text_or(head.username, "?"@),
                app_id: text_or(head.application_id, ""@),
            }
        } else if kind == "MESSAGE_CREATE"@ {
            CommandModel::Create
        } else if kind == "MESSAGE_UPDATE"@ {
            CommandModel::Update
        } else if kind == "MESSAGE_DELETE"@ {
            CommandModel::Delete
        } else if kind == "INTERACTION_CREATE"@ {
            CommandModel::Interaction
        } else {
            CommandModel::Read
        },
    }
}

/// What a document with this head leads to, where `seq` is the last sequence
/// number seen, its own included.
pub open spec fn on_head(head: HeadModel, seq: Option<u64>) -> CommandModel {
    match head.op {
        Some(op) => if op == 0 {
            on_event(head)
        } else if op == 1 {
            CommandModel::Beat { payload: heartbeat(seq) }
        } else if op == 7 || op == 9 {
            CommandModel::Finish(OutcomeModel::CleanRestart)
        } else {
            CommandModel::Read
        },
        None => CommandModel::Read,
    }
}

/// Decides what a dispatched event leads to.
pub fn dispatch(head: &Head) -> (out: Command)
    ensures
        out@ == on_event(head@),
{
    match &head.kind {
        None => Command::Read,
        Some(kind) => {
            let kind = kind.as_str();
            if same(kind, "READY") {
                Command::Ready {
                    user: or_text(&head.username, "?"),
                    app_id: or_text(&head.application_id, ""),
                }
            } else if same(kind, "MESSAGE_CREATE") {
                Command::Create
            } else if same(kind, "MESSAGE_UPDATE") {
                Command::Update
            } else if same(kind, "MESSAGE_DELETE") {
                Command::Delete
            } else if same(kind, "INTERACTION_CREATE") {
                Command::Interaction
            } else {
                Command::Read
            }
        },
    }
}

/// How far a connection has come.
#[derive(Clone, Copy, PartialEq, Eq, Structural)]
pub enum Phase {
    /// The server's first document has not arrived.
    Hello,
    /// Events arrive.
    Live,
}

/// The state of a connection.
#[derive(Clone, Copy)]
pub struct Session {
    /// How far the connection has come.
    pub phase: Phase,
    /// The last sequence number seen.
    pub seq: Option<u64>,
}

/// What the server's first document leads to, where `interval` is the heartbeat
/// interval in it.
pub open spec fn on_hello(
    interval: Option<u64>,
    token: Seq<char>,
    with_db: bool,
) -> (Phase, CommandModel) {
    match interval {
        Some(ms) => (
            Phase::Live,
            CommandModel::Identify { payload: identification(token, with_db), heartbeat_ms: ms },
        ),
        None => (
            Phase::Hello,
            CommandModel::Finish(OutcomeModel::Disconnected("malformed HELLO"@)),
        ),
    }
}

/// What a text leads to in the session `s`.
pub open spec fn on_text(
    s: Session,
    document: Seq<char>,
    token: Seq<char>,
    with_db: bool,
) -> (Session, CommandModel) {
    if !crate::json::json_accepts(document) {
        (s, CommandModel::Read)
    } else if s.phase == Phase::Hello {
        let (phase, command) = on_hello(
            crate::json::json_u64_at(document, "/d/heartbeat_interval"@),
            token,
            with_db,
        );
        (Session { phase, seq: s.seq }, command)
    } else {
        let head = head_of(document);
        let seq = seq_after(head, s.seq);
        (Session { phase: s.phase, seq }, on_head(head, seq))
    }
}

/// What `input` leads to in the session `s`. Before the first document a close
/// frame counts as its reason, and every failure means that the document never
/// came.
pub open spec fn on_input(s: Session, input: Input, token: Seq<char>, with_db: bool) -> (
    Session,
    CommandModel,
) {
    match input {
        Input::DialFailed(e) => (
            s,
            CommandModel::Finish(OutcomeModel::Disconnected("dial: "@ + e@)),
        ),
        Input::IdentifyFailed(e) => (
            s,
            CommandModel::Finish(OutcomeModel::Disconnected("identify: "@ + e@)),
        ),
        Input::StopRequested => (s, CommandModel::Finish(OutcomeModel::Stopped)),
        Input::Unreadable => (s, CommandModel::Read),
        Input::Text(document) => on_text(s, document@, token, with_db),
        Input::Closed(frame) => if s.phase == Phase::Hello {
            match frame {
                Some((_, reason)) => on_text(s, reason@, token, with_db),
                None => on_text(s, ""@, token, with_db),
            }
        } else {
            (s, CommandModel::Finish(close_outcome(close_model(frame))))
        },
        Input::Failed(e) => if s.phase == Phase::Hello {
            (s, CommandModel::Finish(OutcomeModel::Disconnected("closed before HELLO"@)))
        } else {
            (s, CommandModel::Finish(OutcomeModel::Disconnected("ws: "@ + e@)))
        },
        Input::Ended => if s.phase == Phase::Hello {
            (s, CommandModel::Finish(OutcomeModel::Disconnected("closed before HELLO"@)))
        } else {
            (s, CommandModel::Finish(OutcomeModel::Disconnected("stream ended"@)))
        },
    }
}

/// Decides what the server's first document leads to.
pub fn greet(interval: Option<u64>, token: &str, with_db: bool) -> (out: (Phase, Command))
    ensures
        (out.0, out.1@) == on_hello(interval, token@, with_db),
{
    match interval {
        Some(ms) => (
            Phase::Live,
            Command::Identify { payload: identify_payload(token, with_db), heartbeat_ms: ms },
        ),
        None => (
            Phase::Hello,
            Command::Finish(ConnectOutcome::Disconnected("malformed HELLO".to_string())),
        ),
    }
}

impl Session {
    /// A connection on which nothing has arrived.
    pub fn new() -> (s: Session)
        ensures
            s.phase == Phase::Hello,
            s.seq is None,
    {
        Session { phase: Phase::Hello, seq: None }
    }

    /// Takes in the head of a document and decides what it leads to.
    pub fn handle_head(&mut self, head: &Head) -> (out: Command)
        ensures
            final(self).phase == old(self).phase,
            final(self).seq == seq_after(head@, old(self).seq),
            out@ == on_head(head@, seq_after(head@, old(self).seq)),
    {
        if head.seq.is_some() {
            self.seq = head.seq;
        }
        match head.op {
            Some(op) => if op == 0 {
                dispatch(head)
            } else if op == 1 {
                Command::Beat { payload: heartbeat_payload(self.seq) }
            } else if op == 7 || op == 9 {
                Command::Finish(ConnectOutcome::CleanRestart)
            } else {
                Command::Read
            },
            None => Command::Read,
        }
    }

    /// Takes in a text and decides what it leads to.
    pub fn handle_text(&mut self, document: &str, token: &str, with_db: bool) -> (out: Command)
        ensures
            (*final(self), out@) == on_text(*old(self), document@, token@, with_db),
    {
        if !accepts(document) {
            return Command::Read;
        }
        if self.phase == Phase::Hello {
            let (phase, command) = greet(
                u64_at(document, "/d/heartbeat_interval"),
                token,
                with_db,
            );
            self.phase = phase;
            command
        } else {
            let head = read_head(document);
            self.handle_head(&head)
        }
    }

    /// Takes in what happened on the connection and decides what to do next.
    pub fn handle(&mut self, input: &Input, token: &str, with_db: bool) -> (out: Command)
        ensures
            (*final(self), out@) == on_input(*old(self), *input, token@, with_db),
    {
        match input {
            Input::DialFailed(e) => Command::Finish(
                ConnectOutcome::Disconnected(cat2("dial: ", e.as_str())),
            ),
            Input::IdentifyFailed(e) => Command::Finish(
                ConnectOutcome::Disconnected(cat2("identify: ", e.as_str())),
            ),
            Input::StopRequested => Command::Finish(ConnectOutcome::Stopped),
            Input::Unreadable => Command::Read,
            Input::Text(document) => self.handle_text(document.as_str(), token, with_db),
            Input::Closed(frame) => if self.phase == Phase::Hello {
                match frame {
                    Some((_, reason)) => self.handle_text(reason.as_str(), token, with_db),
                    None => self.handle_text("", token, with_db),
                }
            } else {
                Command::Finish(on_close(frame))
            },
            Input::Failed(e) => if self.phase == Phase::Hello {
                Command::Finish(ConnectOutcome::Disconnected("closed before HELLO".to_string()))
            } else {
                Command::Finish(ConnectOutcome::Disconnected(cat2("ws: ", e.as_str())))
            },
            Input::Ended => if self.phase == Phase::Hello {
                Command::Finish(ConnectOutcome::Disconnected("closed before HELLO".to_string()))
            } else {
                Command::Finish(ConnectOutcome::Disconnected("stream ended".to_string()))
            },
        }
    }
}

/// A document that is not accepted changes nothing.
pub proof fn law_refused_document_ignored(
    s: Session,
    document: Seq<char>,
    token: Seq<char>,
    with_db: bool,
)
    requires
        !crate::json::json_accepts(document),
    ensures
        on_text(s, document, token, with_db) == (s, CommandModel::Read),
{
}

/// A live connection never identifies again, and stays live.
pub proof fn law_identifies_once(s: Session, input: Input, token: Seq<char>, with_db: bool)
    requires
        s.phase == Phase::Live,
    ensures
        on_input(s, input, token, with_db).0.phase == Phase::Live,
        !(on_input(s, input, token, with_db).1 is Identify),
{
}

/// Whether the command ends the connection for good.
pub open spec fn ends_fatally(command: CommandModel) -> bool {
    command matches CommandModel::Finish(OutcomeModel::Fatal(_))
}

/// A connection ends for good only when the server closes a live one with a
/// fatal code, and every such close ends it for good.
pub proof fn law_fatal_only_by_close_code(
    s: Session,
    input: Input,
    token: Seq<char>,
    with_db: bool,
)
    ensures
        ends_fatally(on_input(s, input, token, with_db).1) <==> (s.phase == Phase::Live && (
        input matches Input::Closed(Some((code, _))) && is_fatal(code))),
{
}

/// What is remembered of a message event.
pub struct MessageEvent {
    pub id: Option<String>,
    pub channel_id: Option<String>,
    pub guild_id: Option<String>,
    pub content: Option<String>,
    pub timestamp: Option<String>,
    pub author_id: Option<String>,
    pub author_username: Option<String>,
    pub author_bot: Option<bool>,
    pub member_nick: Option<String>,
}

/// What is remembered of a message event, with texts as characters.
pub struct EventModel {
    pub id: Option<Seq<char>>,
    pub channel_id: Option<Seq<char>>,
    pub guild_id: Option<Seq<char>>,
    pub content: Option<Seq<char>>,
    pub timestamp: Option<Seq<char>>,
    pub author_id: Option<Seq<char>>,
    pub author_username: Option<Seq<char>>,
    pub author_bot: Option<bool>,
    pub member_nick: Option<Seq<char>>,
}

impl View for MessageEvent {
    type V = EventModel;

    open spec fn view(&self) -> EventModel {
        EventModel {
            id: opt_text(self.id),
            channel_id: opt_text(self.channel_id),
            guild_id: opt_text(self.guild_id),
            content: opt_text(self.content),
            timestamp: opt_text(self.timestamp),
            author_id: opt_text(self.author_id),
            author_username: opt_text(self.author_username),
            author_bot: self.author_bot,
            member_nick: opt_text(self.member_nick),
        }
    }
}

/// The message event in a document.
pub open spec fn event_in(document: Seq<char>) -> EventModel {
    EventModel {
        id: crate::json::json_str_at(document, "/d/id"@),
        channel_id: crate::json::json_str_at(document, "/d/channel_id"@),
        guild_id: crate::json::json_str_at(document, "/d/guild_id"@),
        content: crate::json::json_str_at(document, "/d/content"@),
        timestamp: crate::json::json_str_at(document, "/d/timestamp"@),
        author_id: crate::json::json_str_at(document, "/d/author/id"@),
        author_username: crate::json::json_str_at(document, "/d/author/username"@),
        author_bot: crate::json::json_bool_at(document, "/d/author/bot"@),
        member_nick: crate::json::json_str_at(document, "/d/member/nick"@),
    }
}

/// Reads the message event in a document.
pub fn read_message_event(document: &str) -> (out: MessageEvent)
    ensures
        out@ == event_in(document@),
{
    MessageEvent {
        id: str_at(document, "/d/id"),
        channel_id: str_at(document, "/d/channel_id"),
        guild_id: str_at(document, "/d/guild_id"),
        content: str_at(document, "/d/content"),
        timestamp: str_at(document, "/d/timestamp"),
        author_id: str_at(document, "/d/author/id"),
        author_username: str_at(document, "/d/author/username"),
        author_bot: bool_at(document, "/d/author/bot"),
        member_nick: str_at(document, "/d/member/nick"),
    }
}

/// The signed number with the same 64 bits.
pub open spec fn signed(n: u64) -> i64 {
    if n <= i64::MAX {
        n as i64
    } else {
        (n - 0x1_0000_0000_0000_0000) as i64
    }
}

/// The id that a text writes, as a signed number.
pub open spec fn id_of(s: Seq<char>) -> Option<i64> {
    match crate::text::parsed_u64(s) {
        Some(n) => Some(signed(n)),
        None => None,
    }
}

/// Reads an id: an unsigned 64-bit number, kept as the signed number with the
/// same bits.
pub fn parse_id(s: &str) -> (r: Option<i64>)
    ensures
        r == id_of(s@),
{
    match parse_u64(s) {
        Some(n) => {
            if n <= 0x7fff_ffff_ffff_ffff {
                Some(n as i64)
            } else {
                let low: u64 = n - 0x8000_0000_0000_0000;
                Some(low as i64 + i64::MIN)
            }
        },
        None => None,
    }
}

/// Different ids stay different.
pub proof fn law_ids_kept_apart(a: u64, b: u64)
    requires
        signed(a) == signed(b),
    ensures
        a == b,
{
}

/// The id that an optional text writes.
pub open spec fn opt_id(s: Option<Seq<char>>) -> Option<i64> {
    match s {
        Some(t) => id_of(t),
        None => None,
    }
}

/// Reads the id in an optional text.
pub fn parse_opt_id(s: &Option<String>) -> (r: Option<i64>)
    ensures
        r == opt_id(opt_text(*s)),
{
    match s {
        Some(t) => parse_id(t.as_str()),
        None => None,
    }
}

/// A message as it is logged.
pub struct CreateRecord {
    pub message_id: i64,
    pub channel_id: i64,
    pub user_id: i64,
    pub username: String,
    pub content: String,
    pub guild_id: Option<i64>,
    /// The guild's id as it was written, where it is one.
    pub guild: Option<String>,
    pub nickname: Option<String>,
    /// When it was written, in seconds since 1970 and nanoseconds; unknown
    /// where the event did not say.
    pub created_at: Option<(i64, u32)>,
}

/// A message as it is logged, with texts as characters.
pub struct CreateModel {
    pub message_id: i64,
    pub channel_id: i64,
    pub user_id: i64,
    pub username: Seq<char>,
    pub content: Seq<char>,
    pub guild_id: Option<i64>,
    pub guild: Option<Seq<char>>,
    pub nickname: Option<Seq<char>>,
    pub created_at: Option<(i64, u32)>,
}

impl View for CreateRecord {
    type V = CreateModel;

    open spec fn view(&self) -> CreateModel {
        CreateModel {
            message_id: self.message_id,
            channel_id: self.channel_id,
            user_id: self.user_id,
            username: self.username@,
            content: self.content@,
            guild_id: self.guild_id,
            guild: opt_text(self.guild),
            nickname: opt_text(self.nickname),
            created_at: self.created_at,
        }
    }
}

/// What is logged of a new message, where `created_at` is the instant that its
/// timestamp names: nothing of a bot's, nor of one whose ids cannot be read.
pub open spec fn logged_create(e: EventModel, created_at: Option<(i64, u32)>) -> Option<
    CreateModel,
> {
    match (opt_id(e.id), opt_id(e.channel_id), opt_id(e.author_id)) {
        (Some(message_id), Some(channel_id), Some(user_id)) if e.author_bot != Some(true) => Some(
            CreateModel {
                message_id,
                channel_id,
                user_id,
                username: text_or(e.author_username, ""@),
                content: text_or(e.content, ""@),
                guild_id: opt_id(e.guild_id),
                guild: if opt_id(e.guild_id) is Some {
                    e.guild_id
                } else {
                    None
                },
                nickname: e.member_nick,
                created_at,
            },
        ),
        _ => None,
    }
}

/// The instant that a message's timestamp names.
pub open spec fn instant_of(e: EventModel) -> Option<(i64, u32)> {
    match e.timestamp {
        Some(t) => crate::calendar::rfc3339_instant(t),
        None => None,
    }
}

/// A copy of an optional text.
pub fn copy_text(o: &Option<String>) -> (out: Option<String>)
    ensures
        opt_text(out) == opt_text(*o),
{
    match o {
        Some(s) => Some(s.clone()),
        None => None,
    }
}

/// Decides what is logged of a new message that was written at `created_at`.
pub fn record_of(e: &MessageEvent, created_at: Option<(i64, u32)>) -> (r: Option<CreateRecord>)
    ensures
        match r {
            Some(record) => logged_create(e@, created_at) == Some(record@),
            None => logged_create(e@, created_at) is None,
        },
{
    let is_bot = match e.author_bot {
        Some(b) => b,
        None => false,
    };
    if is_bot {
        return None;
    }
    match (parse_opt_id(&e.id), parse_opt_id(&e.channel_id), parse_opt_id(&e.author_id)) {
        (Some(message_id), Some(channel_id), Some(user_id)) => {
            let guild_id = parse_opt_id(&e.guild_id);
            let guild = if guild_id.is_some() {
                copy_text(&e.guild_id)
            } else {
                None
            };
            Some(
                CreateRecord {
                    message_id,
                    channel_id,
                    user_id,
                    username: or_text(&e.author_username, ""),
                    content: or_text(&e.content, ""),
                    guild_id,
                    guild,
                    nickname: copy_text(&e.member_nick),
                    created_at,
                },
            )
        },
        _ => None,
    }
}

/// Decides what is logged of a new message.
pub fn log_create_to_db(e: &MessageEvent) -> (r: Option<CreateRecord>)
    ensures
        match r {
            Some(record) => logged_create(e@, instant_of(e@)) == Some(record@),
            None => logged_create(e@, instant_of(e@)) is None,
        },
{
    let created_at = match &e.timestamp {
        Some(t) => crate::calendar::parse_rfc3339(t.as_str()),
        None => None,
    };
    record_of(e, created_at)
}

/// One write of a message into the log.
#[allow(inconsistent_fields)]
pub enum LogStep {
    User { user_id: i64, username: String },
    Guild { guild_id: i64, guild: String },
    Member { user_id: i64, guild_id: i64, nickname: Option<String> },
    Message {
        message_id: i64,
        user_id: i64,
        channel_id: i64,
        guild_id: Option<i64>,
        content: String,
        created_at: Option<(i64, u32)>,
    },
}

/// One write of a message into the log, with texts as characters.
#[allow(inconsistent_fields)]
pub enum LogStepModel {
    User { user_id: i64, username: Seq<char> },
    Guild { guild_id: i64, guild: Seq<char> },
    Member { user_id: i64, guild_id: i64, nickname: Option<Seq<char>> },
    Message {
        message_id: i64,
        user_id: i64,
        channel_id: i64,
        guild_id: Option<i64>,
        content: Seq<char>,
        created_at: Option<(i64, u32)>,
    },
}

impl View for LogStep {
    type V = LogStepModel;

    open spec fn view(&self) -> LogStepModel {
        match *self {
            LogStep::User { user_id, username } => LogStepModel::User {
                user_id,
                username: username@,
            },
            LogStep::Guild { guild_id, guild } => LogStepModel::Guild { guild_id, guild: guild@ },
            LogStep::Member { user_id, guild_id, nickname } => LogStepModel::Member {
                user_id,
                guild_id,
                nickname: opt_text(nickname),
            },
            LogStep::Message { message_id, user_id, channel_id, guild_id, content, created_at } =>
            LogStepModel::Message {
                message_id,
                user_id,
                channel_id,
                guild_id,
                content: content@,
                created_at,
            },
        }
    }
}

/// The writes that log a message, in order: its author, its guild and the
/// author's membership where the guild is known, and the message itself.
pub open spec fn log_order(m: CreateModel) -> Seq<LogStepModel> {
    let user = LogStepModel::User { user_id: m.user_id, username: m.username };
    let message = LogStepModel::Message {
        message_id: m.message_id,
        user_id: m.user_id,
        channel_id: m.channel_id,
        guild_id: m.guild_id,
        content: m.content,
        created_at: m.created_at,
    };
    match (m.guild_id, m.guild) {
        (Some(guild_id), Some(guild)) => seq![
            user,
            LogStepModel::Guild { guild_id, guild },
            LogStepModel::Member { user_id: m.user_id, guild_id, nickname: m.nickname },
            message,
        ],
        _ => seq![user, message],
    }
}

/// The writes that log a message, in order.
pub fn log_steps(r: &CreateRecord) -> (out: Vec<LogStep>)
    ensures
        out@.map_values(|s: LogStep| s@) == log_order(r@),
{
    let mut out: Vec<LogStep> = Vec::new();
    out.push(LogStep::User { user_id: r.user_id, username: r.username.clone() });
    if let (Some(guild_id), Some(guild)) = (r.guild_id, &r.guild) {
        out.push(LogStep::Guild { guild_id, guild: guild.clone() });
        let nickname = copy_text(&r.nickname);
        out.push(LogStep::Member { user_id: r.user_id, guild_id, nickname });
    }
    out.push(
        LogStep::Message {
            message_id: r.message_id,
            user_id: r.user_id,
            channel_id: r.channel_id,
            guild_id: r.guild_id,
            content: r.content.clone(),
            created_at: r.created_at,
        },
    );
    assert(out@.map_values(|s: LogStep| s@) =~= log_order(r@));
    out
}

/// The name under which a guild is logged: the one that was looked up, or a
/// placeholder made of its id.
pub fn guild_name(fetched: &Option<String>, guild: &str) -> (out: String)
    ensures
        out@ == text_or(opt_text(*fetched), "guild:"@ + guild@),
{
    match fetched {
        Some(name) => name.clone(),
        None => cat2("guild:", guild),
    }
}

/// The id of a message of the watched channel, if the event is about one.
pub open spec fn watched(e: EventModel, channel: Seq<char>) -> Option<Seq<char>> {
    let c = text_or(e.channel_id, ""@);
    let id = text_or(e.id, ""@);
    if c.len() > 0 && c == channel && id.len() > 0 {
        Some(id)
    } else {
        None
    }
}

/// The id of a message of the watched channel, if the event is about one.
pub fn watched_id(e: &MessageEvent, channel: &str) -> (r: Option<String>)
    ensures
        opt_text(r) == watched(e@, channel@),
{
    let c = or_text(&e.channel_id, "");
    let id = or_text(&e.id, "");
    if !c.as_str().is_empty() && same(c.as_str(), channel) && !id.as_str().is_empty() {
        Some(id)
    } else {
        None
    }
}

/// What a new message leads to.
pub struct CreatePlan {
    /// What to log, where there is a database.
    pub record: Option<CreateRecord>,
    /// What to look into, where there is moderation.
    pub suspect: Option<crate::moderation::Suspect>,
    /// What to write to the log before the poller is woken, where it is.
    pub trigger: Option<String>,
}

/// Decides what a new message leads to.
pub fn handle_message_create(
    e: &MessageEvent,
    channel: &str,
    with_db: bool,
    with_moderation: bool,
) -> (plan: CreatePlan)
    ensures
        match plan.record {
            Some(r) => with_db && logged_create(e@, instant_of(e@)) == Some(r@),
            None => !with_db || logged_create(e@, instant_of(e@)) is None,
        },
        match plan.suspect {
            Some(s) => with_moderation && crate::moderation::suspected(e@) == Some(s@),
            None => !with_moderation || crate::moderation::suspected(e@) is None,
        },
        opt_text(plan.trigger) == (match watched(e@, channel@) {
            Some(id) => Some("gateway: new message "@ + id + " — triggering fetch"@),
            None => None,
        }),
{
    let record = if with_db {
        log_create_to_db(e)
    } else {
        None
    };
    let suspect = if with_moderation {
        crate::moderation::inspect_create(e)
    } else {
        None
    };
    let trigger = match watched_id(e, channel) {
        Some(id) => Some(cat3("gateway: new message ", id.as_str(), " — triggering fetch")),
        None => None,
    };
    CreatePlan { record, suspect, trigger }
}

/// An edit as it is logged.
pub struct EditRecord {
    pub message_id: i64,
    pub channel_id: i64,
    pub guild_id: Option<i64>,
    pub content: String,
}

/// What an edit leads to.
pub struct UpdatePlan {
    /// What to log, where there is a database.
    pub edit: Option<EditRecord>,
    /// The message whose new text is to be fetched.
    pub watched: Option<String>,
    /// What to write to the log, where the message is watched.
    pub line: Option<String>,
}

/// What is logged of an edit: message, channel, guild and the new content,
/// which the event must hold.
pub open spec fn logged_edit(e: EventModel) -> Option<(i64, i64, Option<i64>, Seq<char>)> {
    match (opt_id(e.id), opt_id(e.channel_id), e.content) {
        (Some(message_id), Some(channel_id), Some(content)) => Some(
            (message_id, channel_id, opt_id(e.guild_id), content),
        ),
        _ => None,
    }
}

/// Decides what an edit leads to.
pub fn handle_message_update(e: &MessageEvent, channel: &str, with_db: bool) -> (plan: UpdatePlan)
    ensures
        match plan.edit {
            Some(r) => with_db && logged_edit(e@) == Some(
                (r.message_id, r.channel_id, r.guild_id, r.content@),
            ),
            None => !with_db || logged_edit(e@) is None,
        },
        opt_text(plan.watched) == watched(e@, channel@),
        opt_text(plan.line) == (match watched(e@, channel@) {
            Some(id) => Some("gateway: edit detected on "@ + id),
            None => None,
        }),
{
    let edit = if with_db {
        match (parse_opt_id(&e.id), parse_opt_id(&e.channel_id), &e.content) {
            (Some(message_id), Some(channel_id), Some(content)) => Some(
                EditRecord {
                    message_id,
                    channel_id,
                    guild_id: parse_opt_id(&e.guild_id),
                    content: content.clone(),
                },
            ),
            _ => None,
        }
    } else {
        None
    };
    let watched = watched_id(e, channel);
    let line = match &watched {
        Some(id) => Some(cat2("gateway: edit detected on ", id.as_str())),
        None => None,
    };
    UpdatePlan { edit, watched, line }
}

/// A deletion as it is logged, and what to write to the log.
pub struct DeletePlan {
    pub message_id: i64,
    pub channel_id: i64,
    pub guild_id: Option<i64>,
    pub line: String,
}

/// What is logged of a deletion: message, channel and guild.
pub open spec fn logged_delete(e: EventModel) -> Option<(i64, i64, Option<i64>)> {
    match (opt_id(e.id), opt_id(e.channel_id)) {
        (Some(message_id), Some(channel_id)) => Some((message_id, channel_id, opt_id(e.guild_id))),
        _ => None,
    }
}

/// Decides what a deletion leads to.
pub fn handle_message_delete(e: &MessageEvent, with_db: bool) -> (plan: Option<DeletePlan>)
    ensures
        match plan {
            Some(p) => with_db && logged_delete(e@) == Some(
                (p.message_id, p.channel_id, p.guild_id),
            ) && p.line@ == "gateway: delete logged "@ + text_or(e@.id, ""@),
            None => !with_db || logged_delete(e@) is None,
        },
{
    if !with_db {
        return None;
    }
    match (parse_opt_id(&e.id), parse_opt_id(&e.channel_id)) {
        (Some(message_id), Some(channel_id)) => {
            let id = or_text(&e.id, "");
            Some(
                DeletePlan {
                    message_id,
                    channel_id,
                    guild_id: parse_opt_id(&e.guild_id),
                    line: cat2("gateway: delete logged ", id.as_str()),
                },
            )
        },
        _ => None,
    }
}

/// What the log says when a session is ready.
pub fn ready_line(user: &str) -> (out: String)
    ensures
        out@ == "gateway: READY as "@ + user@,
{
    cat2("gateway: READY as ", user)
}

/// The pause before the next connection after one that ended so, in
/// milliseconds; none where there is no next connection.
pub open spec fn backoff_after(backoff: int, outcome: OutcomeModel) -> Option<int> {
    match outcome {
        OutcomeModel::Disconnected(_) => Some(
            if 2 * backoff < MAX_BACKOFF_MS {
                2 * backoff
            } else {
                MAX_BACKOFF_MS as int
            },
        ),
        OutcomeModel::CleanRestart => Some(FIRST_BACKOFF_MS as int),
        _ => None,
    }
}

/// What the log says of a connection that ended so.
pub open spec fn outcome_text(outcome: OutcomeModel) -> Option<Seq<char>> {
    match outcome {
        OutcomeModel::Disconnected(reason) => Some("gateway: "@ + reason),
        OutcomeModel::CleanRestart => None,
        OutcomeModel::Fatal(reason) => Some("gateway: fatal, not reconnecting — "@ + reason),
        OutcomeModel::Stopped => Some("gateway: stopped"@),
    }
}

/// What the log says of a connection that ended so.
pub fn outcome_line(outcome: &ConnectOutcome) -> (line: Option<String>)
    ensures
        opt_text(line) == outcome_text(outcome@),
{
    match outcome {
        ConnectOutcome::Disconnected(reason) => Some(cat2("gateway: ", reason.as_str())),
        ConnectOutcome::CleanRestart => None,
        ConnectOutcome::Fatal(reason) => Some(
            cat2("gateway: fatal, not reconnecting — ", reason.as_str()),
        ),
        ConnectOutcome::Stopped => Some("gateway: stopped".to_string()),
    }
}

/// The pause before the next connection after one that ended so.
pub fn next_backoff(backoff_ms: u64, outcome: &ConnectOutcome) -> (next: Option<u64>)
    ensures
        match next {
            Some(ms) => backoff_after(backoff_ms as int, outcome@) == Some(ms as int),
            None => backoff_after(backoff_ms as int, outcome@) is None,
        },
{
    match outcome {
        ConnectOutcome::Disconnected(_) => if backoff_ms < MAX_BACKOFF_MS / 2 {
            Some(2 * backoff_ms)
        } else {
            Some(MAX_BACKOFF_MS)
        },
        ConnectOutcome::CleanRestart => Some(FIRST_BACKOFF_MS),
        _ => None,
    }
}

/// The pause stays between its first and its longest length.
pub proof fn law_backoff_bounded(backoff: int, outcome: OutcomeModel)
    requires
        FIRST_BACKOFF_MS <= backoff <= MAX_BACKOFF_MS,
    ensures
        match backoff_after(backoff, outcome) {
            Some(ms) => FIRST_BACKOFF_MS <= ms <= MAX_BACKOFF_MS,
            None => true,
        },
{
}

/// A connection follows unless the last one was refused for good or stopped.
pub proof fn law_reconnects_unless_final(backoff: int, outcome: OutcomeModel)
    ensures
        backoff_after(backoff, outcome) is None <==> (outcome is Fatal || outcome is Stopped),
{
}

/// The messages of guilds are always asked for, and their content exactly where
/// it is logged.
pub proof fn law_intents(with_db: bool)
    ensures
        intents_for(with_db) == if with_db {
            33280u64
        } else {
            512
        },
{
}

/// The documents that are sent: the identification holds the intents and the
/// token, the heartbeat the last sequence number or `null`.
pub proof fn law_documents_sent(token: Seq<char>, with_db: bool, n: u64)
    ensures
        identification(token, with_db) == "{\"d\":{\"intents\":"@ + (if with_db {
            crate::text::decimal(33280)
        } else {
            crate::text::decimal(512)
        })
            + ",\"properties\":{\"browser\":\"discord_to_insta\",\"device\":\"discord_to_insta\",\"os\":\"linux\"},\"token\":"@
            + crate::json::json_quoted(token) + "},\"op\":2}"@,
        heartbeat(Some(n)) == "{\"d\":"@ + crate::text::decimal(n as nat) + ",\"op\":1}"@,
        heartbeat(None) == "{\"d\":null,\"op\":1}"@,
{
}

/// The close codes after which no connection is tried again.
pub proof fn law_fatal_codes(code: u16)
    ensures
        is_fatal(code) <==> seq![4004u16, 4010, 4011, 4012, 4013, 4014].contains(code),
{
    let s = seq![4004u16, 4010, 4011, 4012, 4013, 4014];
    assert(s[0] == 4004 && s[1] == 4010 && s[2] == 4011 && s[3] == 4012 && s[4] == 4013 && s[5]
        == 4014);
}

/// What the end of a connection is said to be: a close frame is told with its
/// code and reason.
pub proof fn law_words_of_the_end(code: u16, reason: Seq<char>)
    ensures
        close_text(Some((code, reason))) == "closed: "@ + crate::text::decimal(code as nat) + " "@
            + reason,
        close_text(None) == "closed"@,
        close_outcome(None) == OutcomeModel::Disconnected("closed"@),
        close_outcome(Some((code, reason))) == (if code == 4004 || (4010 <= code && code <= 4014) {
            OutcomeModel::Fatal(close_text(Some((code, reason))))
        } else {
            OutcomeModel::Disconnected(close_text(Some((code, reason))))
        }),
        outcome_text(OutcomeModel::Disconnected(reason)) == Some("gateway: "@ + reason),
        outcome_text(OutcomeModel::Fatal(reason)) == Some(
            "gateway: fatal, not reconnecting — "@ + reason,
        ),
        outcome_text(OutcomeModel::Stopped) == Some("gateway: stopped"@),
        outcome_text(OutcomeModel::CleanRestart) is None,
{
}

/// The last sequence number is the one that arrived last, however it compares
/// with those before; what holds none leaves it alone.
pub proof fn law_sequence_number(head: HeadModel, known: Option<u64>)
    ensures
        head.seq is Some ==> seq_after(head, known) == head.seq,
        head.seq is None ==> seq_after(head, known) == known,
{
}

/// What a document leads to goes by its operation code alone, and for an event
/// by its name.
pub proof fn law_what_a_document_leads_to(head: HeadModel, seq: Option<u64>)
    ensures
        head.op == Some(1u64) <==> on_head(head, seq) is Beat,
        on_head(head, seq) is Beat ==> on_head(head, seq)->Beat_payload == heartbeat(seq),
        head.op == Some(7u64) || head.op == Some(9u64) <==> on_head(head, seq)
            == CommandModel::Finish(OutcomeModel::CleanRestart),
        head.op == Some(0u64) && head.kind == Some("READY"@) <==> on_head(head, seq) is Ready,
        on_head(head, seq) is Ready ==> on_head(head, seq)->user == (match head.username {
            Some(name) => name,
            None => "?"@,
        }) && on_head(head, seq)->app_id == (match head.application_id {
            Some(id) => id,
            None => ""@,
        }),
        head.op == Some(0u64) && head.kind == Some("MESSAGE_CREATE"@) <==> on_head(head, seq)
            is Create,
        head.op == Some(0u64) && head.kind == Some("MESSAGE_UPDATE"@) <==> on_head(head, seq)
            is Update,
        head.op == Some(0u64) && head.kind == Some("MESSAGE_DELETE"@) <==> on_head(head, seq)
            is Delete,
        head.op == Some(0u64) && head.kind == Some("INTERACTION_CREATE"@) <==> on_head(head, seq)
            is Interaction,
        !(on_head(head, seq) is Identify),
        on_head(head, seq) is Finish ==> on_head(head, seq) == CommandModel::Finish(
            OutcomeModel::CleanRestart,
        ),
{
    reveal_strlit("READY");
    reveal_strlit("MESSAGE_CREATE");
    reveal_strlit("MESSAGE_UPDATE");
    reveal_strlit("MESSAGE_DELETE");
    reveal_strlit("INTERACTION_CREATE");
    assert("READY"@.len() == 5);
    assert("MESSAGE_CREATE"@.len() == 14);
    assert("MESSAGE_UPDATE"@.len() == 14);
    assert("MESSAGE_DELETE"@.len() == 14);
    assert("INTERACTION_CREATE"@.len() == 18);
    assert("MESSAGE_CREATE"@[8] == 'C');
    assert("MESSAGE_UPDATE"@[8] == 'U');
    assert("MESSAGE_DELETE"@[8] == 'D');
}

/// What happens on a connection leads to: reading on, or an end that says what
/// happened. A stop ends it as stopped; before the first document every failure
/// means that the document never came, and after it the failure is told.
pub proof fn law_what_an_input_leads_to(
    s: Session,
    e: String,
    frame: Option<(u16, String)>,
    token: Seq<char>,
    with_db: bool,
)
    ensures
        on_input(s, Input::StopRequested, token, with_db) == (
            s,
            CommandModel::Finish(OutcomeModel::Stopped),
        ),
        on_input(s, Input::Unreadable, token, with_db) == (s, CommandModel::Read),
        on_input(s, Input::DialFailed(e), token, with_db) == (
            s,
            CommandModel::Finish(OutcomeModel::Disconnected("dial: "@ + e@)),
        ),
        on_input(s, Input::IdentifyFailed(e), token, with_db) == (
            s,
            CommandModel::Finish(OutcomeModel::Disconnected("identify: "@ + e@)),
        ),
        on_input(s, Input::Text(e), token, with_db) == on_text(s, e@, token, with_db),
        s.phase == Phase::Hello ==> on_input(s, Input::Failed(e), token, with_db) == (
            s,
            CommandModel::Finish(OutcomeModel::Disconnected("closed before HELLO"@)),
        ) && on_input(s, Input::Ended, token, with_db) == (
            s,
            CommandModel::Finish(OutcomeModel::Disconnected("closed before HELLO"@)),
        ) && on_input(s, Input::Closed(frame), token, with_db) == on_text(
            s,
            match frame {
                Some((code, reason)) => reason@,
                None => ""@,
            },
            token,
            with_db,
        ),
        s.phase == Phase::Live ==> on_input(s, Input::Failed(e), token, with_db) == (
            s,
            CommandModel::Finish(OutcomeModel::Disconnected("ws: "@ + e@)),
        ) && on_input(s, Input::Ended, token, with_db) == (
            s,
            CommandModel::Finish(OutcomeModel::Disconnected("stream ended"@)),
        ) && on_input(s, Input::Closed(frame), token, with_db) == (
            s,
            CommandModel::Finish(close_outcome(close_model(frame))),
        ),
{
}

/// The first document that is accepted starts the session if it names a heartbeat
/// interval, whose length is kept; else the connection ends. The sequence number
/// is left alone. In a live session the head of the document counts.
pub proof fn law_first_document(s: Session, document: Seq<char>, token: Seq<char>, with_db: bool)
    requires
        crate::json::json_accepts(document),
    ensures
        s.phase == Phase::Hello ==> ({
            let (t, command) = on_text(s, document, token, with_db);
            &&& t.seq == s.seq
            &&& match crate::json::json_u64_at(document, "/d/heartbeat_interval"@) {
                Some(ms) => t.phase == Phase::Live && command == (CommandModel::Identify {
                    payload: identification(token, with_db),
                    heartbeat_ms: ms,
                }),
                None => t.phase == Phase::Hello && command == CommandModel::Finish(
                    OutcomeModel::Disconnected("malformed HELLO"@),
                ),
            }
        }),
        s.phase == Phase::Live ==> ({
            let (t, command) = on_text(s, document, token, with_db);
            &&& t.phase == Phase::Live
            &&& t.seq == seq_after(head_of(document), s.seq)
            &&& command == on_head(head_of(document), t.seq)
        }),
{
}

/// Where the parts of a document are read.
pub proof fn law_where_the_head_is_read(document: Seq<char>)
    ensures
        head_of(document).seq == crate::json::json_u64_at(document, "/s"@),
        head_of(document).op == crate::json::json_u64_at(document, "/op"@),
        head_of(document).kind == crate::json::json_str_at(document, "/t"@),
        head_of(document).username == crate::json::json_str_at(document, "/d/user/username"@),
        head_of(document).application_id == crate::json::json_str_at(
            document,
            "/d/application/id"@,
        ),
{
}

/// Where the parts of a message event are read.
pub proof fn law_where_an_event_is_read(document: Seq<char>)
    ensures
        event_in(document).id == crate::json::json_str_at(document, "/d/id"@),
        event_in(document).channel_id == crate::json::json_str_at(document, "/d/channel_id"@),
        event_in(document).guild_id == crate::json::json_str_at(document, "/d/guild_id"@),
        event_in(document).content == crate::json::json_str_at(document, "/d/content"@),
        event_in(document).timestamp == crate::json::json_str_at(document, "/d/timestamp"@),
        event_in(document).author_id == crate::json::json_str_at(document, "/d/author/id"@),
        event_in(document).author_username == crate::json::json_str_at(
            document,
            "/d/author/username"@,
        ),
        event_in(document).author_bot == crate::json::json_bool_at(document, "/d/author/bot"@),
        event_in(document).member_nick == crate::json::json_str_at(document, "/d/member/nick"@),
{
}

/// An id keeps its 64 bits: it differs from the number that was written by
/// nothing, or by two to the power 64 where that does not fit.
pub proof fn law_id_bits(n: u64)
    ensures
        signed(n) == n || signed(n) == n - 0x1_0000_0000_0000_0000,
        id_of(crate::text::decimal(n as nat)) == Some(signed(n)),
{
    crate::text::law_printed_number_is_read_back(n);
}

/// A new message is logged exactly when no bot wrote it and the ids of message,
/// channel and author can be read; what is logged is what the event says, with
/// empty texts for missing ones and no guild where its id cannot be read.
pub proof fn law_what_is_logged_of_a_message(e: EventModel, created_at: Option<(i64, u32)>)
    ensures
        logged_create(e, created_at) is Some <==> {
            &&& e.author_bot != Some(true)
            &&& e.id is Some && id_of(e.id->0) is Some
            &&& e.channel_id is Some && id_of(e.channel_id->0) is Some
            &&& e.author_id is Some && id_of(e.author_id->0) is Some
        },
        logged_create(e, created_at) matches Some(r) ==> {
            &&& Some(r.message_id) == id_of(e.id->0)
            &&& Some(r.channel_id) == id_of(e.channel_id->0)
            &&& Some(r.user_id) == id_of(e.author_id->0)
            &&& e.author_username is Some ==> r.username == e.author_username->0
            &&& e.author_username is None ==> r.username.len() == 0
            &&& e.content is Some ==> r.content == e.content->0
            &&& e.content is None ==> r.content.len() == 0
            &&& r.nickname == e.member_nick
            &&& r.created_at == created_at
            &&& e.guild_id is None ==> r.guild_id is None && r.guild is None
            &&& e.guild_id is Some ==> r.guild_id == id_of(e.guild_id->0)
            &&& r.guild_id is Some ==> r.guild == e.guild_id
            &&& r.guild_id is None ==> r.guild is None
        },
        e.timestamp is Some ==> instant_of(e) == crate::calendar::rfc3339_instant(e.timestamp->0),
        e.timestamp is None ==> instant_of(e) is None,
{
    reveal_strlit("");
}

/// An edit is logged exactly when its ids can be read and it holds a content, be
/// it empty, and a deletion exactly when its ids can be read.
pub proof fn law_what_is_logged_of_edits_and_deletions(e: EventModel)
    ensures
        logged_edit(e) is Some <==> {
            &&& e.id is Some && id_of(e.id->0) is Some
            &&& e.channel_id is Some && id_of(e.channel_id->0) is Some
            &&& e.content is Some
        },
        logged_edit(e) matches Some(r) ==> {
            &&& Some(r.0) == id_of(e.id->0)
            &&& Some(r.1) == id_of(e.channel_id->0)
            &&& r.2 == (if e.guild_id is Some {
                id_of(e.guild_id->0)
            } else {
                None
            })
            &&& Some(r.3) == e.content
        },
        logged_delete(e) is Some <==> {
            &&& e.id is Some && id_of(e.id->0) is Some
            &&& e.channel_id is Some && id_of(e.channel_id->0) is Some
        },
        logged_delete(e) matches Some(r) ==> {
            &&& Some(r.0) == id_of(e.id->0)
            &&& Some(r.1) == id_of(e.channel_id->0)
            &&& r.2 == (if e.guild_id is Some {
                id_of(e.guild_id->0)
            } else {
                None
            })
        },
{
}

/// A message wakes the poller exactly when it stands in the watched channel and
/// has an id, and under that id.
pub proof fn law_which_messages_are_watched(e: EventModel, channel: Seq<char>)
    ensures
        watched(e, channel) is Some <==> {
            &&& channel.len() > 0
            &&& e.channel_id == Some(channel)
            &&& e.id is Some && e.id->0.len() > 0
        },
        watched(e, channel) is Some ==> watched(e, channel) == e.id,
{
    reveal_strlit("");
}

/// A message is logged last, after its author, and where its guild is known after
/// the guild and the author's membership in it, each with what the message says.
pub proof fn law_order_of_the_log(m: CreateModel)
    ensures
        ({
            let o = log_order(m);
            let n = o.len() as int;
            let known = m.guild_id is Some && m.guild is Some;
            &&& n == if known {
                4int
            } else {
                2
            }
            &&& o[0] == (LogStepModel::User { user_id: m.user_id, username: m.username })
            &&& known ==> o[1] == (LogStepModel::Guild {
                guild_id: m.guild_id->0,
                guild: m.guild->0,
            })
            &&& known ==> o[2] == (LogStepModel::Member {
                user_id: m.user_id,
                guild_id: m.guild_id->0,
                nickname: m.nickname,
            })
            &&& o[n - 1] == (LogStepModel::Message {
                message_id: m.message_id,
                user_id: m.user_id,
                channel_id: m.channel_id,
                guild_id: m.guild_id,
                content: m.content,
                created_at: m.created_at,
            })
        }),
{
}

/// The pause doubles after each failure up to one minute, and starts over with one
/// second after a restart that the server asked for.
pub proof fn law_backoff(backoff: int, reason: Seq<char>)
    requires
        0 <= backoff,
    ensures
        backoff <= 30000 ==> backoff_after(backoff, OutcomeModel::Disconnected(reason)) == Some(
            2 * backoff,
        ),
        backoff >= 30000 ==> backoff_after(backoff, OutcomeModel::Disconnected(reason)) == Some(
            60000int,
        ),
        backoff_after(backoff, OutcomeModel::CleanRestart) == Some(1000int),
{
}

/// A missing text is made up for, and one that is there stays, be it empty.
pub proof fn law_text_or(s: Seq<char>, otherwise: Seq<char>)
    ensures
        text_or(Some(s), otherwise) == s,
        text_or(None, otherwise) == otherwise,
        opt_id(None) is None,
        opt_id(Some(s)) == id_of(s),
{
}

/// The fixed values of the gateway.
pub proof fn law_fixed_values()
    ensures
        GATEWAY_URL@ == "wss://gateway.discord.gg/?v=10&encoding=json"@,
        MAX_BACKOFF_MS == 60000,
        FIRST_BACKOFF_MS == 1000,
        LOG_MAX_LINES == 40,
{
}

/// The model of the end of a connection holds all that the value holds, its texts as characters.
pub proof fn law_model_of_connect_outcome(x: ConnectOutcome)
    ensures
        x@ == (match x {
            ConnectOutcome::Disconnected(reason) => OutcomeModel::Disconnected(reason@),
            ConnectOutcome::CleanRestart => OutcomeModel::CleanRestart,
            ConnectOutcome::Fatal(reason) => OutcomeModel::Fatal(reason@),
            ConnectOutcome::Stopped => OutcomeModel::Stopped,
        }),
{
}

/// The model of a command holds all that the value holds, its texts as characters.
pub proof fn law_model_of_command(x: Command)
    ensures
        x@ == (match x {
            Command::Read => CommandModel::Read,
            Command::Identify { payload, heartbeat_ms } => CommandModel::Identify {
                payload: payload@,
                heartbeat_ms,
            },
            Command::Beat { payload } => CommandModel::Beat { payload: payload@ },
            Command::Ready { user, app_id } => CommandModel::Ready { user: user@, app_id: app_id@ },
            Command::Create => CommandModel::Create,
            Command::Update => CommandModel::Update,
            Command::Delete => CommandModel::Delete,
            Command::Interaction => CommandModel::Interaction,
            Command::Finish(outcome) => CommandModel::Finish(outcome@),
        }),
{
}

/// The model of the head of a document holds all that the value holds, its texts as characters.
pub proof fn law_model_of_head(x: Head)
    ensures
        x@ == (HeadModel {
            seq: x.seq,
            op: x.op,
            kind: opt_text(x.kind),
            username: opt_text(x.username),
            application_id: opt_text(x.application_id),
        }),
{
}

/// The model of a message event holds all that the value holds, its texts as characters.
pub proof fn law_model_of_message_event(x: MessageEvent)
    ensures
        x@ == (EventModel {
            id: opt_text(x.id),
            channel_id: opt_text(x.channel_id),
            guild_id: opt_text(x.guild_id),
            content: opt_text(x.content),
            timestamp: opt_text(x.timestamp),
            author_id: opt_text(x.author_id),
            author_username: opt_text(x.author_username),
            author_bot: x.author_bot,
            member_nick: opt_text(x.member_nick),
        }),
{
}

/// The model of a message as it is logged holds all that the value holds, its texts as characters.
pub proof fn law_model_of_create_record(x: CreateRecord)
    ensures
        x@ == (CreateModel {
            message_id: x.message_id,
            channel_id: x.channel_id,
            user_id: x.user_id,
            username: x.username@,
            content: x.content@,
            guild_id: x.guild_id,
            guild: opt_text(x.guild),
            nickname: opt_text(x.nickname),
            created_at: x.created_at,
        }),
{
}

/// The model of a write into the log holds all that the value holds, its texts as characters.
pub proof fn law_model_of_log_step(x: LogStep)
    ensures
        x@ == (match x {
            LogStep::User { user_id, username } => LogStepModel::User {
                user_id,
                username: username@,
            },
            LogStep::Guild { guild_id, guild } => LogStepModel::Guild { guild_id, guild: guild@ },
            LogStep::Member { user_id, guild_id, nickname } => LogStepModel::Member {
                user_id,
                guild_id,
                nickname: opt_text(nickname),
            },
            LogStep::Message { message_id, user_id, channel_id, guild_id, content, created_at } =>
            LogStepModel::Message {
                message_id,
                user_id,
                channel_id,
                guild_id,
                content: content@,
                created_at,
            },
        }),
{
}

} // verus!
