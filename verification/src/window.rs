//! The window: what it holds, what its controls do and what it shows.

use std::collections::VecDeque;
use vstd::prelude::*;

use crate::discord::Message;
use crate::images::{image_for_distance, parse_distance_km};
use crate::json::opt_text;
use crate::poller::{reaction_emoji, PollerEvent, POLL_INTERVAL_SECS};
use crate::strmap::StrMap;
use crate::text::{
    cat2, cat3, cat4, cat5, cat7, chars_of, join, print_u64, same, strip_left, take_before,
    text_of, trim, Class,
};
use crate::transform::discord_to_caption;

verus! {

/// The channel that is watched unless another is entered.
pub const DEFAULT_CHANNEL_ID: &'static str = "981806074233507880";

/// Where the images are kept.
pub const IMAGES_DIR: &'static str = "images";

/// How many lines the auto-reactor's log keeps.
pub const LOG_MAX_LINES: usize = 20;

/// How many characters of a message the list shows.
pub const PREVIEW_MAX: usize = 120;

/// What is known of the last fetch.
pub enum Status {
    Idle,
    Fetching,
    Error(String),
    Done(String),
}

/// What is known of the last fetch, with texts as characters.
pub enum StatusModel {
    Idle,
    Fetching,
    Error(Seq<char>),
    Done(Seq<char>),
}

impl View for Status {
    type V = StatusModel;

    open spec fn view(&self) -> StatusModel {
        match *self {
            Status::Idle => StatusModel::Idle,
            Status::Fetching => StatusModel::Fetching,
            Status::Error(e) => StatusModel::Error(e@),
            Status::Done(m) => StatusModel::Done(m@),
        }
    }
}

/// How a fetch ended.
pub enum Fetched {
    Messages(Vec<Message>),
    Failed(crate::discord::Error),
    Disconnected,
}

/// What the window holds.
pub struct App {
    pub token: String,
    pub channel_id: String,
    /// The text of the announcement.
    pub raw: String,
    /// Discord ids and the Instagram handles for them.
    pub user_map_rows: Vec<(String, String)>,
    pub messages: Vec<Message>,
    pub selected_message_id: Option<String>,
    pub fetch_status: Status,
    pub last_copy_status: Option<String>,
    /// Whether the auto-reactor is on.
    pub poller: bool,
    /// Whether the auto-reactor may still tell something.
    pub listening: bool,
    pub poller_log: VecDeque<String>,
    pub last_seen_id: Option<String>,
}

/// The rows as character sequences.
pub open spec fn rows_of(rows: Seq<(String, String)>) -> Seq<(Seq<char>, Seq<char>)> {
    crate::moderation::pairs(rows)
}

/// The handle that a row gives: trimmed, without the signs `@` in front.
pub open spec fn handle_of(entry: Seq<char>) -> Seq<char> {
    crate::text::left_stripped(crate::text::trimmed(entry), Class::At)
}

/// The handles that the rows give: rows with an empty side give none, and of
/// two rows for one id the later one counts.
pub open spec fn handles(rows: Seq<(Seq<char>, Seq<char>)>) -> Map<Seq<char>, Seq<char>>
    decreases rows.len(),
{
    if rows.len() == 0 {
        Map::empty()
    } else {
        let earlier = handles(rows.drop_last());
        let (id, entry) = rows.last();
        if crate::text::trimmed(id).len() > 0 && crate::text::trimmed(entry).len() > 0 {
            earlier.insert(crate::text::trimmed(id), handle_of(entry))
        } else {
            earlier
        }
    }
}

/// `s` without the white space at its ends.
fn trimmed_text(s: &str) -> (out: String)
    ensures
        out@ == crate::text::trimmed(s@),
{
    let cs = chars_of(s);
    text_of(trim(cs.as_slice()))
}

/// The rows that a message's mentions add: one for each mentioned user that has
/// none, with no handle yet.
pub open spec fn seeded(rows: Seq<(Seq<char>, Seq<char>)>, mentions: Seq<Seq<char>>) -> Seq<
    (Seq<char>, Seq<char>),
>
    decreases mentions.len(),
{
    if mentions.len() == 0 {
        rows
    } else {
        let earlier = seeded(rows, mentions.drop_last());
        let id = mentions.last();
        if exists|i: int| 0 <= i < earlier.len() && (#[trigger] earlier[i]).0 == id {
            earlier
        } else {
            earlier.push((id, Seq::empty()))
        }
    }
}

/// The ids of the users that a message mentions.
pub open spec fn mentioned(m: Message) -> Seq<Seq<char>> {
    m.mentions@.map_values(|u: crate::discord::User| u.id@)
}

/// The index of the first message with the id, or the number of messages.
pub open spec fn message_index(messages: Seq<Message>, id: Seq<char>) -> int
    decreases messages.len(),
{
    if messages.len() == 0 || messages[0].id@ == id {
        0
    } else {
        1 + message_index(messages.drop_first(), id)
    }
}

/// What the log says when the auto-reactor starts.
pub open spec fn started_text() -> Seq<char> {
    "auto-react started (polling every "@ + crate::text::decimal(POLL_INTERVAL_SECS as nat)
        + "s, emojis: "@ + emojis_text() + ")"@
}

/// The emojis with spaces between them.
pub open spec fn emojis_text() -> Seq<char> {
    crate::text::joined(crate::poller::reaction_emojis(), " "@)
}

/// The emojis with spaces between them.
pub fn emojis_joined() -> (out: String)
    ensures
        out@ == emojis_text(),
{
    let mut emojis: Vec<String> = Vec::new();
    emojis.push(reaction_emoji(0).to_string());
    emojis.push(reaction_emoji(1).to_string());
    emojis.push(reaction_emoji(2).to_string());
    assert(crate::strmap::texts(emojis@) =~= crate::poller::reaction_emojis());
    join(&emojis, " ")
}

/// What the log says of what the auto-reactor told.
pub open spec fn event_line(ev: crate::poller::PollerEventModel) -> Option<Seq<char>> {
    match ev {
        crate::poller::PollerEventModel::Bootstrap { last_id } => Some(
            "bootstrap: recorded newest message "@ + last_id + " (no retroactive reactions)"@,
        ),
        crate::poller::PollerEventModel::Reacted { message_id, emoji } => Some(
            "reacted "@ + emoji + " on "@ + message_id,
        ),
        crate::poller::PollerEventModel::NoNewMessages => None,
        crate::poller::PollerEventModel::Error(e) => Some("error: "@ + e),
        crate::poller::PollerEventModel::Stopped => Some("auto-react stopped"@),
    }
}

/// The log after `line` was added, if there is one.
pub open spec fn logged(lines: Seq<String>, line: Option<Seq<char>>) -> Seq<Seq<char>> {
    match line {
        Some(l) => crate::strmap::texts(crate::log::kept(lines, LOG_MAX_LINES as int)).push(l),
        None => crate::strmap::texts(lines),
    }
}

/// The newest message seen after what the auto-reactor told.
pub open spec fn last_seen_after(
    ev: crate::poller::PollerEventModel,
    known: Option<Seq<char>>,
) -> Option<Seq<char>> {
    match ev {
        crate::poller::PollerEventModel::Bootstrap { last_id } => Some(last_id),
        crate::poller::PollerEventModel::Reacted { message_id, emoji } => Some(message_id),
        _ => known,
    }
}

/// Whom to ask: the token and the channel.
pub struct Credentials {
    pub token: String,
    pub channel_id: String,
}

impl App {
    /// A window on which nothing was done, with the token that is set and the
    /// newest message that was handled.
    pub fn new(token: String, last_seen_id: Option<String>) -> (app: App)
        ensures
            app.token == token,
            app.channel_id@ == DEFAULT_CHANNEL_ID@,
            app.raw@.len() == 0,
            rows_of(app.user_map_rows@) == seq![(Seq::<char>::empty(), Seq::<char>::empty())],
            app.messages@.len() == 0,
            app.selected_message_id is None,
            app.fetch_status@ == StatusModel::Idle,
            app.last_copy_status is None,
            !app.poller,
            !app.listening,
            app.poller_log@.len() == 0,
            app.last_seen_id == last_seen_id,
    {
        let mut rows: Vec<(String, String)> = Vec::new();
        rows.push((String::new(), String::new()));
        assert(rows_of(rows@) =~= seq![(Seq::<char>::empty(), Seq::<char>::empty())]);
        App {
            token,
            channel_id: DEFAULT_CHANNEL_ID.to_string(),
            raw: String::new(),
            user_map_rows: rows,
            messages: Vec::new(),
            selected_message_id: None,
            fetch_status: Status::Idle,
            last_copy_status: None,
            poller: false,
            listening: false,
            poller_log: VecDeque::new(),
            last_seen_id,
        }
    }

    /// The handles that the rows give.
    pub fn user_map(&self) -> (out: StrMap<String>)
        ensures
            crate::strmap::text_map(out@) == handles(rows_of(self.user_map_rows@)),
    {
        let ghost rows = rows_of(self.user_map_rows@);
        let mut out: StrMap<String> = StrMap::new();
        let mut i: usize = 0;
        assert(crate::strmap::text_map(out@) =~= handles(rows.take(0)));
        while i < self.user_map_rows.len()
            invariant
                i <= self.user_map_rows.len(),
                rows == rows_of(self.user_map_rows@),
                crate::strmap::text_map(out@) == handles(rows.take(i as int)),
            decreases self.user_map_rows.len() - i,
        {
            assert(rows.take(i + 1).drop_last() == rows.take(i as int));
            assert(rows.take(i + 1).last() == rows[i as int]);
            let id = trimmed_text(self.user_map_rows[i].0.as_str());
            let entry = trimmed_text(self.user_map_rows[i].1.as_str());
            if !id.as_str().is_empty() && !entry.as_str().is_empty() {
                let cs = chars_of(entry.as_str());
                let handle = text_of(strip_left(cs.as_slice(), Class::At));
                let ghost before = out@;
                let ghost key = id@;
                let ghost value = handle;
                let _ = out.insert(id, handle);
                assert(crate::strmap::text_map(out@) =~= crate::strmap::text_map(before).insert(
                    key,
                    value@,
                ));
            }
            i += 1;
        }
        assert(rows.take(i as int) == rows);
        out
    }

    /// Starts a fetch, unless one is running or the token or the channel is
    /// missing, and says whom to ask.
    pub fn start_fetch(&mut self) -> (r: Option<Credentials>)
        ensures
            *final(self) == (App { fetch_status: final(self).fetch_status, ..*old(self) }),
            ({
                let token = crate::text::trimmed(old(self).token@);
                let channel = crate::text::trimmed(old(self).channel_id@);
                if old(self).fetch_status@ == StatusModel::Fetching {
                    r is None && final(self).fetch_status == old(self).fetch_status
                } else if token.len() == 0 {
                    r is None && final(self).fetch_status@ == StatusModel::Error(
                        "Missing bot token (set DISCORD_BOT_TOKEN or paste it above)."@,
                    )
                } else if channel.len() == 0 {
                    r is None && final(self).fetch_status@ == StatusModel::Error(
                        "Missing channel ID."@,
                    )
                } else {
                    &&& final(self).fetch_status@ == StatusModel::Fetching
                    &&& r matches Some(c) && c.token@ == token && c.channel_id@ == channel
                }
            }),
    {
        if let Status::Fetching = self.fetch_status {
            return None;
        }
        let token = trimmed_text(self.token.as_str());
        if token.as_str().is_empty() {
            self.fetch_status = Status::Error(
                "Missing bot token (set DISCORD_BOT_TOKEN or paste it above).".to_string(),
            );
            return None;
        }
        let channel_id = trimmed_text(self.channel_id.as_str());
        if channel_id.as_str().is_empty() {
            self.fetch_status = Status::Error("Missing channel ID.".to_string());
            return None;
        }
        self.fetch_status = Status::Fetching;
        Some(Credentials { token, channel_id })
    }

    /// Takes in how a fetch ended.
    pub fn poll_fetch(&mut self, result: Fetched)
        ensures
            *final(self) == (App {
                fetch_status: final(self).fetch_status,
                messages: final(self).messages,
                ..*old(self)
            }),
            match result {
                Fetched::Messages(messages) => {
                    &&& final(self).messages == messages
                    &&& final(self).fetch_status@ == StatusModel::Done(
                        "fetched "@ + crate::text::decimal(messages@.len()) + " messages"@,
                    )
                },
                Fetched::Failed(e) => {
                    &&& final(self).messages == old(self).messages
                    &&& final(self).fetch_status@ == StatusModel::Error(
                        crate::discord::error_text(e@),
                    )
                },
                Fetched::Disconnected => {
                    &&& final(self).messages == old(self).messages
                    &&& final(self).fetch_status@ == StatusModel::Error(
                        "Fetch thread disconnected."@,
                    )
                },
            },
    {
        match result {
            Fetched::Messages(messages) => {
                let n = messages.len();
                self.messages = messages;
                self.fetch_status = Status::Done(
                    cat3("fetched ", print_u64(n as u64).as_str(), " messages"),
                );
            },
            Fetched::Failed(e) => {
                self.fetch_status = Status::Error(e.message());
            },
            Fetched::Disconnected => {
                self.fetch_status = Status::Error("Fetch thread disconnected.".to_string());
            },
        }
    }

    fn find_message(&self, id: &str) -> (i: usize)
        ensures
            i == message_index(self.messages@, id@),
            i <= self.messages@.len(),
    {
        let mut i: usize = 0;
        assert(self.messages@.skip(0) == self.messages@);
        while i < self.messages.len() && !same(self.messages[i].id.as_str(), id)
            invariant
                i <= self.messages.len(),
                message_index(self.messages@, id@) == i + message_index(
                    self.messages@.skip(i as int),
                    id@,
                ),
            decreases self.messages.len() - i,
        {
            assert(self.messages@.skip(i as int).drop_first() == self.messages@.skip(i + 1));
            i += 1;
        }
        assert(message_index(self.messages@.skip(i as int), id@) == 0);
        i
    }

    fn has_row(rows: &Vec<(String, String)>, id: &str) -> (r: bool)
        ensures
            r == exists|i: int|
                0 <= i < rows_of(rows@).len() && (#[trigger] rows_of(rows@)[i]).0 == id@,
    {
        let mut i: usize = 0;
        while i < rows.len()
            invariant
                i <= rows.len(),
                forall|j: int| 0 <= j < i ==> (#[trigger] rows_of(rows@)[j]).0 != id@,
            decreases rows.len() - i,
        {
            assert(rows_of(rows@)[i as int].0 == rows@[i as int].0@);
            if same(rows[i].0.as_str(), id) {
                return true;
            }
            i += 1;
        }
        false
    }

    /// Loads the fetched message with this id for editing, and adds a row for
    /// each user it mentions that has none. An id that was not fetched changes
    /// nothing.
    pub fn load_selected(&mut self, id: &str)
        ensures
            *final(self) == (App {
                raw: final(self).raw,
                selected_message_id: final(self).selected_message_id,
                user_map_rows: final(self).user_map_rows,
                ..*old(self)
            }),
            ({
                let i = message_index(old(self).messages@, id@);
                if i < old(self).messages@.len() {
                    let m = old(self).messages@[i];
                    &&& final(self).raw@ == m.content@
                    &&& opt_text(final(self).selected_message_id) == Some(id@)
                    &&& rows_of(final(self).user_map_rows@) == seeded(
                        rows_of(old(self).user_map_rows@),
                        mentioned(m),
                    )
                } else {
                    *final(self) == *old(self)
                }
            }),
    {
        let i = self.find_message(id);
        if i >= self.messages.len() {
            return ;
        }
        let ghost before = rows_of(self.user_map_rows@);
        let mut rows: Vec<(String, String)> = Vec::new();
        std::mem::swap(&mut rows, &mut self.user_map_rows);
        let m = &self.messages[i];
        let ghost ids = mentioned(*m);
        let mut j: usize = 0;
        assert(seeded(before, ids.take(0)) =~= before);
        while j < m.mentions.len()
            invariant
                j <= m.mentions.len(),
                ids == mentioned(*m),
                rows_of(rows@) == seeded(before, ids.take(j as int)),
            decreases m.mentions.len() - j,
        {
            assert(ids.take(j + 1).drop_last() == ids.take(j as int));
            assert(ids.take(j + 1).last() == m.mentions@[j as int].id@);
            let ghost so_far = rows_of(rows@);
            if !Self::has_row(&rows, m.mentions[j].id.as_str()) {
                rows.push((m.mentions[j].id.clone(), String::new()));
                assert(rows_of(rows@) =~= so_far.push(
                    (m.mentions@[j as int].id@, Seq::<char>::empty()),
                ));
            }
            j += 1;
        }
        assert(ids.take(j as int) == ids);
        self.raw = m.content.clone();
        self.selected_message_id = Some(id.to_string());
        self.user_map_rows = rows;
    }

    /// Adds a line to the log.
    pub fn push_log(&mut self, line: String)
        ensures
            *final(self) == (App { poller_log: final(self).poller_log, ..*old(self) }),
            final(self).poller_log@ == crate::log::kept(
                old(self).poller_log@,
                LOG_MAX_LINES as int,
            ).push(line),
    {
        crate::log::push(&mut self.poller_log, LOG_MAX_LINES, line);
    }

    /// Adds a line to the log, given as characters in the contract.
    fn note(&mut self, line: String)
        ensures
            *final(self) == (App { poller_log: final(self).poller_log, ..*old(self) }),
            crate::strmap::texts(final(self).poller_log@) == logged(
                old(self).poller_log@,
                Some(line@),
            ),
    {
        let ghost before = self.poller_log@;
        let ghost added = line;
        self.push_log(line);
        assert(crate::strmap::texts(self.poller_log@) =~= crate::strmap::texts(
            crate::log::kept(before, LOG_MAX_LINES as int),
        ).push(added@));
    }

    /// Switches the auto-reactor on, unless it is on or the token or the channel
    /// is missing, and says whom to ask.
    pub fn start_poller(&mut self) -> (r: Option<Credentials>)
        ensures
            *final(self) == (App {
                poller: final(self).poller,
                listening: final(self).listening,
                poller_log: final(self).poller_log,
                ..*old(self)
            }),
            ({
                let token = crate::text::trimmed(old(self).token@);
                let channel = crate::text::trimmed(old(self).channel_id@);
                let log = old(self).poller_log@;
                if old(self).poller {
                    r is None && *final(self) == *old(self)
                } else if token.len() == 0 {
                    &&& r is None
                    &&& !final(self).poller && final(self).listening == old(self).listening
                    &&& crate::strmap::texts(final(self).poller_log@) == logged(
                        log,
                        Some("cannot start auto-react: missing bot token"@),
                    )
                } else if channel.len() == 0 {
                    &&& r is None
                    &&& !final(self).poller && final(self).listening == old(self).listening
                    &&& crate::strmap::texts(final(self).poller_log@) == logged(
                        log,
                        Some("cannot start auto-react: missing channel ID"@),
                    )
                } else {
                    &&& final(self).poller && final(self).listening
                    &&& r matches Some(c) && c.token@ == token && c.channel_id@ == channel
                    &&& crate::strmap::texts(final(self).poller_log@) == logged(
                        log,
                        Some(started_text()),
                    )
                }
            }),
    {
        if self.poller {
            return None;
        }
        let token = trimmed_text(self.token.as_str());
        if token.as_str().is_empty() {
            self.note("cannot start auto-react: missing bot token".to_string());
            return None;
        }
        let channel_id = trimmed_text(self.channel_id.as_str());
        if channel_id.as_str().is_empty() {
            self.note("cannot start auto-react: missing channel ID".to_string());
            return None;
        }
        self.poller = true;
        self.listening = true;
        self.note(
            cat5(
                "auto-react started (polling every ",
                print_u64(POLL_INTERVAL_SECS).as_str(),
                "s, emojis: ",
                emojis_joined().as_str(),
                ")",
            ),
        );
        Some(Credentials { token, channel_id })
    }

    /// Switches the auto-reactor off; true where it was on and has to be told.
    pub fn stop_poller(&mut self) -> (was_on: bool)
        ensures
            was_on == old(self).poller,
            *final(self) == (App {
                poller: false,
                poller_log: final(self).poller_log,
                ..*old(self)
            }),
            crate::strmap::texts(final(self).poller_log@) == logged(
                old(self).poller_log@,
                if old(self).poller {
                    Some("auto-react stopping…"@)
                } else {
                    None
                },
            ),
    {
        if self.poller {
            self.poller = false;
            self.note("auto-react stopping…".to_string());
            true
        } else {
            false
        }
    }

    /// Takes in that the auto-reactor's thread has ended.
    pub fn poller_ended(&mut self)
        ensures
            *final(self) == (App {
                poller: false,
                listening: false,
                poller_log: final(self).poller_log,
                ..*old(self)
            }),
            crate::strmap::texts(final(self).poller_log@) == logged(
                old(self).poller_log@,
                Some("auto-react thread ended"@),
            ),
    {
        self.listening = false;
        self.poller = false;
        self.note("auto-react thread ended".to_string());
    }

    /// Takes in what the auto-reactor told.
    pub fn handle_poller_event(&mut self, ev: &PollerEvent)
        ensures
            *final(self) == (App {
                last_seen_id: final(self).last_seen_id,
                poller: final(self).poller,
                listening: final(self).listening,
                poller_log: final(self).poller_log,
                ..*old(self)
            }),
            opt_text(final(self).last_seen_id) == last_seen_after(
                ev@,
                opt_text(old(self).last_seen_id),
            ),
            crate::strmap::texts(final(self).poller_log@) == logged(
                old(self).poller_log@,
                event_line(ev@),
            ),
            final(self).poller == (old(self).poller && ev@
                != crate::poller::PollerEventModel::Stopped),
            final(self).listening == (old(self).listening && ev@
                != crate::poller::PollerEventModel::Stopped),
    {
        match ev {
            PollerEvent::Bootstrap { last_id } => {
                self.last_seen_id = Some(last_id.clone());
                self.note(
                    cat3(
                        "bootstrap: recorded newest message ",
                        last_id.as_str(),
                        " (no retroactive reactions)",
                    ),
                );
            },
            PollerEvent::Reacted { message_id, emoji } => {
                self.last_seen_id = Some(message_id.clone());
                self.note(cat4("reacted ", emoji.as_str(), " on ", message_id.as_str()));
            },
            PollerEvent::NoNewMessages => {},
            PollerEvent::Error(e) => {
                self.note(cat2("error: ", e.as_str()));
            },
            PollerEvent::Stopped => {
                self.poller = false;
                self.listening = false;
                self.note("auto-react stopped".to_string());
            },
        }
    }

    /// Adds an empty row for a handle.
    pub fn add_row(&mut self)
        ensures
            *final(self) == (App { user_map_rows: final(self).user_map_rows, ..*old(self) }),
            rows_of(final(self).user_map_rows@) == rows_of(old(self).user_map_rows@).push(
                (Seq::empty(), Seq::empty()),
            ),
    {
        let ghost before = rows_of(self.user_map_rows@);
        self.user_map_rows.push((String::new(), String::new()));
        assert(rows_of(self.user_map_rows@) =~= before.push(
            (Seq::<char>::empty(), Seq::<char>::empty()),
        ));
    }

    /// Removes the row with the index `i`.
    pub fn remove_row(&mut self, i: usize)
        requires
            i < old(self).user_map_rows@.len(),
        ensures
            *final(self) == (App { user_map_rows: final(self).user_map_rows, ..*old(self) }),
            final(self).user_map_rows@ == old(self).user_map_rows@.remove(i as int),
    {
        let _ = self.user_map_rows.remove(i);
    }

    /// The caption of the announcement.
    pub fn caption(&self) -> (out: String)
        ensures
            forall|map: StrMap<String>|
                crate::strmap::text_map(map@) == handles(rows_of(self.user_map_rows@)) ==> out@
                    == #[trigger] crate::transform::caption_of(self.raw@, &map),
    {
        let map = self.user_map();
        let out = discord_to_caption(self.raw.as_str(), &map);
        proof {
            assert forall|other: StrMap<String>|
                crate::strmap::text_map(other@) == handles(
                    rows_of(self.user_map_rows@),
                ) implies out@ == #[trigger] crate::transform::caption_of(self.raw@, &other) by {
                crate::transform::law_caption_depends_on_handles(self.raw@, &map, &other);
            }
        }
        out
    }

    /// Takes in that the caption was copied.
    pub fn copied(&mut self, caption: &str)
        ensures
            *final(self) == (App { last_copy_status: final(self).last_copy_status, ..*old(self) }),
            opt_text(final(self).last_copy_status) == Some(
                "copied "@ + crate::text::decimal(caption@.len()) + " chars"@,
            ),
    {
        let n = chars_of(caption).len();
        self.last_copy_status = Some(cat3("copied ", print_u64(n as u64).as_str(), " chars"));
    }

    /// What is shown of the newest message seen.
    pub fn last_seen_label(&self) -> (out: String)
        ensures
            out@ == (match opt_text(self.last_seen_id) {
                Some(id) => "last seen: "@ + id,
                None => "last seen: (none — first run)"@,
            }),
    {
        match &self.last_seen_id {
            Some(id) => cat2("last seen: ", id.as_str()),
            None => "last seen: (none — first run)".to_string(),
        }
    }
}

/// What is shown of the image, and how it is marked.
pub enum ImageNote {
    /// The image that goes with the distance.
    Found { text: String, name: String },
    /// A distance without an image.
    Missing { text: String },
    /// No distance.
    NoDistance { text: String },
}

/// What is shown of the image, with texts as characters.
pub enum ImageNoteModel {
    Found { text: Seq<char>, name: Seq<char> },
    Missing { text: Seq<char> },
    NoDistance { text: Seq<char> },
}

impl View for ImageNote {
    type V = ImageNoteModel;

    open spec fn view(&self) -> ImageNoteModel {
        match *self {
            ImageNote::Found { text, name } => ImageNoteModel::Found { text: text@, name: name@ },
            ImageNote::Missing { text } => ImageNoteModel::Missing { text: text@ },
            ImageNote::NoDistance { text } => ImageNoteModel::NoDistance { text: text@ },
        }
    }
}

/// What is shown of the image for a distance.
pub open spec fn image_text(km: Option<u32>, name: Option<Seq<char>>) -> ImageNoteModel {
    match (km, name) {
        (Some(n), Some(p)) => ImageNoteModel::Found {
            text: "✓ "@ + crate::text::decimal(n as nat) + " km → "@ + p,
            name: p,
        },
        (Some(n), None) => ImageNoteModel::Missing {
            text: "⚠ "@ + crate::text::decimal(n as nat) + " km detected but no image found in "@
                + IMAGES_DIR@ + "/ (expected *_"@ + crate::text::decimal(n as nat) + ".png)"@,
        },
        (None, _) => ImageNoteModel::NoDistance {
            text: "(no distance detected — caption must contain 'Distance : Nkm')"@,
        },
    }
}

/// Words what is shown of the image for a distance.
pub fn image_note(km: Option<u32>, name: &Option<String>) -> (out: ImageNote)
    ensures
        out@ == image_text(km, opt_text(*name)),
{
    match (km, name) {
        (Some(n), Some(p)) => ImageNote::Found {
            text: cat4("✓ ", print_u64(n as u64).as_str(), " km → ", p.as_str()),
            name: p.clone(),
        },
        (Some(n), None) => ImageNote::Missing {
            text: cat7(
                "⚠ ",
                print_u64(n as u64).as_str(),
                " km detected but no image found in ",
                IMAGES_DIR,
                "/ (expected *_",
                print_u64(n as u64).as_str(),
                ".png)",
            ),
        },
        (None, _) => ImageNote::NoDistance {
            text: "(no distance detected — caption must contain 'Distance : Nkm')".to_string(),
        },
    }
}

/// The image that goes with an announcement, among the files with these names,
/// and what is shown of it.
pub fn pick_image(raw: &str, names: &Vec<String>) -> (out: ImageNote)
    ensures
        ({
            let ms = crate::patterns::regex_matches(crate::patterns::DISTANCE@, raw@);
            let km = if ms.len() > 0 {
                crate::images::rounded(ms[0].2)
            } else {
                None
            };
            match out@ {
                ImageNoteModel::Found { text, name } => {
                    &&& out@ == image_text(km, Some(name))
                    &&& km is Some
                    &&& crate::images::is_image_for(name, km->0)
                    &&& crate::strmap::texts(names@).contains(name)
                    &&& forall|i: int|
                        0 <= i < names@.len() && crate::images::is_image_for(
                            #[trigger] names@[i]@,
                            km->0,
                        ) ==> !crate::text::lex_less(names@[i]@, name)
                },
                ImageNoteModel::Missing { text } => {
                    &&& out@ == image_text(km, None)
                    &&& km is Some
                    &&& forall|i: int|
                        0 <= i < names@.len() ==> !crate::images::is_image_for(
                            #[trigger] names@[i]@,
                            km->0,
                        )
                },
                ImageNoteModel::NoDistance { text } => km is None && out@ == image_text(km, None),
            }
        }),
{
    let km = parse_distance_km(raw);
    let name = match km {
        Some(n) => image_for_distance(names, n),
        None => None,
    };
    image_note(km, &name)
}

/// The name under which a file is shown: its file name, or its whole path
/// where that has no file name that can be read.
pub fn display_path(file_name: &Option<String>, path: &str) -> (out: String)
    ensures
        out@ == crate::gateway::text_or(opt_text(*file_name), path@),
{
    crate::gateway::or_text(file_name, path)
}

/// The first line of a message, trimmed, and cut off with `…` where it is long.
pub open spec fn preview_of(content: Seq<char>) -> Seq<char> {
    let line = crate::text::trimmed(crate::text::before(content, '\n'));
    if line.len() <= PREVIEW_MAX {
        line
    } else {
        line.take(PREVIEW_MAX as int).push('…')
    }
}

/// The start of a message as the list shows it.
pub fn message_preview(content: &str) -> (out: String)
    ensures
        out@ == preview_of(content@),
{
    let cs = chars_of(content);
    let line = trim(take_before(cs.as_slice(), '\n'));
    if line.len() <= PREVIEW_MAX {
        text_of(line)
    } else {
        let head = vstd::slice::slice_subrange(line, 0, PREVIEW_MAX);
        assert(head@ == line@.take(PREVIEW_MAX as int));
        let mut out = text_of(head);
        out.push('…');
        out
    }
}

/// The preview is short and on one line.
pub proof fn law_preview_is_short(content: Seq<char>)
    ensures
        preview_of(content).len() <= PREVIEW_MAX + 1,
        !preview_of(content).contains('\n'),
{
    let first = crate::text::before(content, '\n');
    crate::text::lemma_first_index(content, '\n');
    let l = crate::text::left_stripped(first, Class::White);
    let line = crate::text::trimmed(first);
    crate::text::lemma_left_stripped(first, Class::White);
    crate::text::lemma_right_stripped(l, Class::White);
    assert forall|i: int| 0 <= i < line.len() implies #[trigger] line[i] != '\n' by {
        let k = first.len() - l.len();
        assert(l == first.subrange(k, first.len() as int));
        assert(line == l.subrange(0, line.len() as int));
        assert(line[i] == first[k + i]);
        assert(first[k + i] == content[k + i]);
    }
}

/// The date of a timestamp: what stands before the `T`.
pub fn short_timestamp(ts: &str) -> (out: String)
    ensures
        out@ == crate::text::before(ts@, 'T'),
{
    let cs = chars_of(ts);
    text_of(take_before(cs.as_slice(), 'T'))
}

/// The entry of a message in the list.
pub fn message_label(m: &Message) -> (out: String)
    ensures
        out@ == crate::text::before(m.timestamp@, 'T') + "  "@ + crate::discord::shown(
            m.author.global_name,
            m.author.username,
        ) + "\n"@ + preview_of(m.content@),
{
    cat5(
        short_timestamp(m.timestamp.as_str()).as_str(),
        "  ",
        m.author.display(),
        "\n",
        message_preview(m.content.as_str()).as_str(),
    )
}

/// Of the rows for one id the last with both sides filled counts, and a handle
/// never begins with `@`.
pub proof fn law_handles(rows: Seq<(Seq<char>, Seq<char>)>, id: Seq<char>, entry: Seq<char>)
    requires
        crate::text::trimmed(id).len() > 0,
        crate::text::trimmed(entry).len() > 0,
    ensures
        handles(rows.push((id, entry))).contains_pair(crate::text::trimmed(id), handle_of(entry)),
        handle_of(entry).len() > 0 ==> handle_of(entry)[0] != '@',
{
    assert(rows.push((id, entry)).drop_last() =~= rows);
    crate::text::lemma_left_stripped(crate::text::trimmed(entry), Class::At);
}

/// Whether the rows have one for the id.
pub open spec fn listed_id(rows: Seq<(Seq<char>, Seq<char>)>, id: Seq<char>) -> bool {
    exists|i: int| 0 <= i < rows.len() && (#[trigger] rows[i]).0 == id
}

/// Loading a message keeps the rows there are, in their place, and gives every
/// mentioned user one; doing it again adds nothing.
pub proof fn law_mentions_seeded_once(
    rows: Seq<(Seq<char>, Seq<char>)>,
    mentions: Seq<Seq<char>>,
)
    ensures
        rows.is_prefix_of(seeded(rows, mentions)),
        forall|i: int|
            0 <= i < mentions.len() ==> listed_id(seeded(rows, mentions), #[trigger] mentions[i]),
        seeded(seeded(rows, mentions), mentions) == seeded(rows, mentions),
{
    lemma_seeded(rows, mentions);
    lemma_seeded_again(seeded(rows, mentions), mentions);
}

proof fn lemma_seeded(rows: Seq<(Seq<char>, Seq<char>)>, mentions: Seq<Seq<char>>)
    ensures
        rows.is_prefix_of(seeded(rows, mentions)),
        forall|i: int|
            0 <= i < mentions.len() ==> listed_id(seeded(rows, mentions), #[trigger] mentions[i]),
    decreases mentions.len(),
{
    if mentions.len() == 0 {
        assert(rows.subrange(0, rows.len() as int) =~= rows);
    } else {
        let earlier = seeded(rows, mentions.drop_last());
        lemma_seeded(rows, mentions.drop_last());
        let all = seeded(rows, mentions);
        assert(all.subrange(0, rows.len() as int) =~= earlier.subrange(0, rows.len() as int));
        assert forall|i: int| 0 <= i < mentions.len() implies listed_id(
            all,
            #[trigger] mentions[i],
        ) by {
            if i < mentions.len() - 1 {
                assert(mentions.drop_last()[i] == mentions[i]);
                assert(listed_id(earlier, mentions[i]));
                let k = choose|k: int|
                    0 <= k < earlier.len() && (#[trigger] earlier[k]).0 == mentions[i];
                assert(all[k] == earlier[k]);
            } else if all != earlier {
                assert(all[earlier.len() as int].0 == mentions[i]);
            } else {
                assert(listed_id(earlier, mentions.last()));
            }
        }
    }
}

proof fn lemma_seeded_again(rows: Seq<(Seq<char>, Seq<char>)>, mentions: Seq<Seq<char>>)
    requires
        forall|i: int| 0 <= i < mentions.len() ==> listed_id(rows, #[trigger] mentions[i]),
    ensures
        seeded(rows, mentions) == rows,
    decreases mentions.len(),
{
    if mentions.len() > 0 {
        let earlier = mentions.drop_last();
        assert forall|i: int| 0 <= i < earlier.len() implies listed_id(
            rows,
            #[trigger] earlier[i],
        ) by {
            assert(earlier[i] == mentions[i]);
        }
        lemma_seeded_again(rows, earlier);
        assert(mentions[mentions.len() - 1] == mentions.last());
    }
}

/// A row that counts for `key`: both sides are filled, and the id is `key` but
/// for white space at its ends.
pub open spec fn counts_for(row: (Seq<char>, Seq<char>), key: Seq<char>) -> bool {
    &&& key.len() > 0
    &&& crate::text::trimmed(row.0) == key
    &&& crate::text::trimmed(row.1).len() > 0
}

/// An id has a handle exactly when a row counts for it, and it is the handle of
/// the last such row, whatever rows stand around it.
pub proof fn law_last_row_counts(rows: Seq<(Seq<char>, Seq<char>)>, key: Seq<char>)
    ensures
        handles(rows).contains_key(key) <==> exists|i: int|
            0 <= i < rows.len() && counts_for(#[trigger] rows[i], key),
        forall|i: int|
            0 <= i < rows.len() && counts_for(#[trigger] rows[i], key) && (forall|j: int|
                i < j < rows.len() ==> !counts_for(#[trigger] rows[j], key)) ==> handles(rows)[key]
                == handle_of(rows[i].1),
    decreases rows.len(),
{
    if rows.len() > 0 {
        let fewer = rows.drop_last();
        let n = rows.len() - 1;
        law_last_row_counts(fewer, key);
        assert(rows[n] == rows.last());
        assert forall|i: int| 0 <= i < n implies #[trigger] rows[i] == fewer[i] by {}
        if handles(fewer).contains_key(key) {
            let i = choose|i: int| 0 <= i < fewer.len() && counts_for(#[trigger] fewer[i], key);
            assert(rows[i] == fewer[i]);
        }
        if exists|i: int| 0 <= i < rows.len() && counts_for(#[trigger] rows[i], key) {
            let i = choose|i: int| 0 <= i < rows.len() && counts_for(#[trigger] rows[i], key);
            if i < n {
                assert(fewer[i] == rows[i]);
            }
        }
        assert forall|i: int|
            0 <= i < rows.len() && counts_for(#[trigger] rows[i], key) && (forall|j: int|
                i < j < rows.len() ==> !counts_for(
                    #[trigger] rows[j],
                    key,
                )) implies handles(rows)[key] == handle_of(rows[i].1) by {
            if i < n {
                assert(!counts_for(rows[n], key));
                assert(fewer[i] == rows[i]);
                assert forall|j: int| i < j < fewer.len() implies !counts_for(
                    #[trigger] fewer[j],
                    key,
                ) by {
                    assert(rows[j] == fewer[j]);
                }
            }
        }
    }
}

/// A handle is what was entered without white space at its ends and without the
/// signs `@` in front.
pub proof fn law_handle_entered(a: Seq<char>, signs: Seq<char>, handle: Seq<char>, b: Seq<char>)
    requires
        forall|i: int| 0 <= i < a.len() ==> crate::text::is_white(#[trigger] a[i]),
        forall|i: int| 0 <= i < b.len() ==> crate::text::is_white(#[trigger] b[i]),
        forall|i: int| 0 <= i < signs.len() ==> #[trigger] signs[i] == '@',
        handle.len() > 0,
        handle[0] != '@',
        !crate::text::is_white(handle[0]),
        !crate::text::is_white(handle.last()),
    ensures
        handle_of(a + (signs + handle) + b) == handle,
{
    let t = signs + handle;
    if signs.len() > 0 {
        assert(t[0] == signs[0]);
    }
    assert(t.last() == handle.last());
    crate::text::law_trimmed_keeps_the_middle(a, t, b);
    let r = crate::text::left_stripped(t, Class::At);
    crate::text::lemma_left_stripped(t, Class::At);
    let k = t.len() - r.len();
    assert(r =~= t.subrange(k, t.len() as int));
    if k < signs.len() {
        assert(r[0] == t[k]);
        assert(t[k] == signs[k]);
    } else if k > signs.len() {
        assert(Class::At.has(t[signs.len() as int]));
        assert(t[signs.len() as int] == handle[0]);
    }
    assert(r =~= handle);
}

/// The rows that loading a message adds stand behind the others, are for users
/// that it mentions and that had none, one each, and have no handle yet.
pub proof fn law_rows_added(rows: Seq<(Seq<char>, Seq<char>)>, mentions: Seq<Seq<char>>)
    ensures
        rows.len() <= seeded(rows, mentions).len(),
        forall|i: int|
            rows.len() <= i < seeded(rows, mentions).len() ==> {
                &&& mentions.contains((#[trigger] seeded(rows, mentions)[i]).0)
                &&& !listed_id(rows, seeded(rows, mentions)[i].0)
                &&& seeded(rows, mentions)[i].1.len() == 0
            },
        forall|i: int, j: int|
            rows.len() <= i < j < seeded(rows, mentions).len() ==> (#[trigger] seeded(
                rows,
                mentions,
            )[i]).0 != (#[trigger] seeded(rows, mentions)[j]).0,
    decreases mentions.len(),
{
    if mentions.len() > 0 {
        let fewer = mentions.drop_last();
        let id = mentions.last();
        law_rows_added(rows, fewer);
        lemma_seeded(rows, fewer);
        let before = seeded(rows, fewer);
        let after = seeded(rows, mentions);
        assert(mentions[mentions.len() - 1] == id);
        assert forall|i: int| rows.len() <= i < after.len() implies {
            &&& mentions.contains((#[trigger] after[i]).0)
            &&& !listed_id(rows, after[i].0)
            &&& after[i].1.len() == 0
        } by {
            if i < before.len() {
                assert(after[i] == before[i]);
                let k = choose|k: int| 0 <= k < fewer.len() && fewer[k] == before[i].0;
                assert(mentions[k] == before[i].0);
            } else {
                assert(after[i] == (id, Seq::<char>::empty()));
                if listed_id(rows, id) {
                    let k = choose|k: int| 0 <= k < rows.len() && (#[trigger] rows[k]).0 == id;
                    assert(rows =~= before.subrange(0, rows.len() as int));
                    assert(before[k] == rows[k]);
                }
            }
        }
        assert forall|i: int, j: int| rows.len() <= i < j < after.len() implies (
        #[trigger] after[i]).0 != (#[trigger] after[j]).0 by {
            assert(after[i] == before[i]);
            if j < before.len() {
                assert(after[j] == before[j]);
            }
        }
    }
}

/// The message that is loaded is the first with the id.
pub proof fn law_message_with_the_id(messages: Seq<Message>, id: Seq<char>)
    ensures
        0 <= message_index(messages, id) <= messages.len(),
        message_index(messages, id) < messages.len() ==> messages[message_index(messages, id)].id@
            == id,
        forall|i: int| 0 <= i < message_index(messages, id) ==> (#[trigger] messages[i]).id@ != id,
    decreases messages.len(),
{
    if messages.len() > 0 && messages[0].id@ != id {
        let rest = messages.drop_first();
        law_message_with_the_id(rest, id);
        let k = message_index(messages, id);
        assert(k == 1 + message_index(rest, id));
        if k < messages.len() {
            assert(rest[k - 1] == messages[k]);
        }
        assert forall|i: int| 0 <= i < k implies (#[trigger] messages[i]).id@ != id by {
            if i > 0 {
                assert(rest[i - 1] == messages[i]);
            }
        }
    }
}

/// The preview of a message is its first line without white space at its ends, and
/// of a longer one than 120 characters the first 120 and `…`.
pub proof fn law_preview(line: Seq<char>, rest: Seq<char>, a: Seq<char>, b: Seq<char>)
    requires
        forall|i: int| 0 <= i < a.len() ==> crate::text::is_white(#[trigger] a[i]),
        forall|i: int| 0 <= i < b.len() ==> crate::text::is_white(#[trigger] b[i]),
        line.len() > 0 ==> !crate::text::is_white(line[0]) && !crate::text::is_white(line.last()),
        !(a + line + b).contains('\n'),
    ensures
        ({
            let shown = if line.len() <= 120 {
                line
            } else {
                line.take(120).push('…')
            };
            &&& preview_of(a + line + b) == shown
            &&& preview_of(a + line + b + seq!['\n'] + rest) == shown
        }),
{
    let first = a + line + b;
    crate::text::law_trimmed_keeps_the_middle(a, line, b);
    lemma_first_line(first, rest);
}

proof fn lemma_first_line(line: Seq<char>, rest: Seq<char>)
    requires
        !line.contains('\n'),
    ensures
        crate::text::before(line, '\n') == line,
        crate::text::before(line + seq!['\n'] + rest, '\n') == line,
{
    let all = line + seq!['\n'] + rest;
    crate::text::lemma_first_index(all, '\n');
    crate::text::lemma_first_index(line, '\n');
    let k = crate::text::first_index(all, '\n');
    let j = crate::text::first_index(line, '\n');
    if k < line.len() {
        assert(all[k] == line[k]);
        assert(line.contains(line[k]));
    } else if k > line.len() {
        assert(all[line.len() as int] == '\n');
    }
    if j < line.len() {
        assert(line.contains(line[j]));
    }
    assert(all.take(k) =~= line);
    assert(line.take(j) =~= line);
}

/// What the log says of each thing that the auto-reactor tells, and what is then
/// the newest message seen.
pub proof fn law_words_of_the_log(a: Seq<char>, b: Seq<char>, known: Option<Seq<char>>)
    ensures
        event_line(crate::poller::PollerEventModel::Bootstrap { last_id: a }) == Some(
            "bootstrap: recorded newest message "@ + a + " (no retroactive reactions)"@,
        ),
        event_line(crate::poller::PollerEventModel::Reacted { message_id: a, emoji: b }) == Some(
            "reacted "@ + b + " on "@ + a,
        ),
        event_line(crate::poller::PollerEventModel::NoNewMessages) is None,
        event_line(crate::poller::PollerEventModel::Error(a)) == Some("error: "@ + a),
        event_line(crate::poller::PollerEventModel::Stopped) == Some("auto-react stopped"@),
        last_seen_after(crate::poller::PollerEventModel::Bootstrap { last_id: a }, known) == Some(
            a,
        ),
        last_seen_after(
            crate::poller::PollerEventModel::Reacted { message_id: a, emoji: b },
            known,
        ) == Some(a),
        last_seen_after(crate::poller::PollerEventModel::NoNewMessages, known) == known,
        last_seen_after(crate::poller::PollerEventModel::Error(a), known) == known,
        last_seen_after(crate::poller::PollerEventModel::Stopped, known) == known,
        started_text() == "auto-react started (polling every "@ + crate::text::decimal(30)
            + "s, emojis: "@ + emojis_text() + ")"@,
        emojis_text() == "✅"@ + " "@ + ("🚫"@ + " "@ + "🤔"@),
{
    let all = crate::poller::reaction_emojis();
    let two = seq!["🚫"@, "🤔"@];
    let one = seq!["🤔"@];
    crate::text::law_joined_from_the_front("✅"@, two, " "@);
    crate::text::law_joined_from_the_front("🚫"@, one, " "@);
    crate::text::law_joined_from_the_front("🤔"@, one, " "@);
    assert(all =~= seq!["✅"@] + two);
    assert(two =~= seq!["🚫"@] + one);
}

/// A line that is added to the log stands at its end, behind the most recent
/// nineteen at most; without a line the log stays as it is.
pub proof fn law_log_of_twenty(lines: Seq<String>, line: Seq<char>)
    ensures
        logged(lines, None) == crate::strmap::texts(lines),
        logged(lines, Some(line)).last() == line,
        logged(lines, Some(line)).len() == if lines.len() < 20 {
            lines.len() + 1
        } else {
            20
        },
        forall|i: int|
            0 <= i < logged(lines, Some(line)).len() - 1 ==> #[trigger] logged(
                lines,
                Some(line),
            )[i] == lines[lines.len() - (logged(lines, Some(line)).len() - 1) + i]@,
{
}

/// What is shown of the image: the distance and the file, or that there is none
/// for it, or that there is no distance.
pub proof fn law_words_of_the_image(n: u32, name: Seq<char>)
    ensures
        image_text(Some(n), Some(name)) == (ImageNoteModel::Found {
            text: "✓ "@ + crate::text::decimal(n as nat) + " km → "@ + name,
            name,
        }),
        image_text(Some(n), None) == (ImageNoteModel::Missing {
            text: "⚠ "@ + crate::text::decimal(n as nat) + " km detected but no image found in "@
                + "images"@ + "/ (expected *_"@ + crate::text::decimal(n as nat) + ".png)"@,
        }),
        image_text(None, Some(name)) == (ImageNoteModel::NoDistance {
            text: "(no distance detected — caption must contain 'Distance : Nkm')"@,
        }),
        image_text(None, None) == (ImageNoteModel::NoDistance {
            text: "(no distance detected — caption must contain 'Distance : Nkm')"@,
        }),
{
}

/// Every user that a message mentions counts, in the order of the mentions.
pub proof fn law_every_mention_counts(m: Message, i: int)
    ensures
        mentioned(m).len() == m.mentions@.len(),
        0 <= i < m.mentions@.len() ==> mentioned(m)[i] == m.mentions@[i].id@,
{
}

/// The fixed values of the window.
pub proof fn law_fixed_values()
    ensures
        DEFAULT_CHANNEL_ID@ == "981806074233507880"@,
        IMAGES_DIR@ == "images"@,
        LOG_MAX_LINES == 20,
        PREVIEW_MAX == 120,
{
}

/// The model of what is known of a fetch holds all that the value holds, its texts as characters.
pub proof fn law_model_of_status(x: Status)
    ensures
        x@ == (match x {
            Status::Idle => StatusModel::Idle,
            Status::Fetching => StatusModel::Fetching,
            Status::Error(e) => StatusModel::Error(e@),
            Status::Done(m) => StatusModel::Done(m@),
        }),
{
}

/// The model of what is shown of the image holds all that the value holds, its texts as characters.
pub proof fn law_model_of_image_note(x: ImageNote)
    ensures
        x@ == (match x {
            ImageNote::Found { text, name } => ImageNoteModel::Found { text: text@, name: name@ },
            ImageNote::Missing { text } => ImageNoteModel::Missing { text: text@ },
            ImageNote::NoDistance { text } => ImageNoteModel::NoDistance { text: text@ },
        }),
{
}

} // verus!
