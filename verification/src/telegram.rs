//! The approval gate on Telegram: the preview that is sent, the requests that
//! are made and what their replies mean.

use vstd::prelude::*;

use crate::discord::success;
use crate::gateway::or_text;
use crate::json::{opt_text, quote};
use crate::text::{cat2, cat3, cat4, cat5, cat7, print_i64, print_u64};

verus! {

/// Where the interface is reached; the token follows.
pub const API_BASE: &'static str = "https://api.telegram.org/bot";

/// How long a request for updates waits, in seconds.
pub const LONG_POLL_TIMEOUT_SECS: u64 = 25;

/// How long any request may take, in seconds.
pub const REQUEST_TIMEOUT_SECS: u64 = 40;

/// Why a request failed.
#[derive(Debug)]
pub enum Error {
    Http { status: u16, body: String },
    Transport(String),
    Parse(String),
    Api { description: String },
}

/// Why a request failed, with texts as characters.
pub enum ErrorModel {
    Http { status: u16, body: Seq<char> },
    Transport(Seq<char>),
    Parse(Seq<char>),
    Api { description: Seq<char> },
}

impl View for Error {
    type V = ErrorModel;

    open spec fn view(&self) -> ErrorModel {
        match *self {
            Error::Http { status, body } => ErrorModel::Http { status, body: body@ },
            Error::Transport(e) => ErrorModel::Transport(e@),
            Error::Parse(e) => ErrorModel::Parse(e@),
            Error::Api { description } => ErrorModel::Api { description: description@ },
        }
    }
}

/// What is said of a failed request.
pub open spec fn error_text(e: ErrorModel) -> Seq<char> {
    match e {
        ErrorModel::Http { status, body } => "Telegram HTTP "@ + crate::text::decimal(status as nat)
            + ": "@ + body,
        ErrorModel::Transport(e) => "Telegram network error: "@ + e,
        ErrorModel::Parse(e) => "Telegram response parse error: "@ + e,
        ErrorModel::Api { description } => "Telegram API error: "@ + description,
    }
}

impl Error {
    /// What is said of the failed request.
    pub fn message(&self) -> (out: String)
        ensures
            out@ == error_text(self@),
    {
        match self {
            Error::Http { status, body } => cat4(
                "Telegram HTTP ",
                print_u64(*status as u64).as_str(),
                ": ",
                body.as_str(),
            ),
            Error::Transport(e) => cat2("Telegram network error: ", e.as_str()),
            Error::Parse(e) => cat2("Telegram response parse error: ", e.as_str()),
            Error::Api { description } => cat2("Telegram API error: ", description.as_str()),
        }
    }
}

/// Something that happened in a chat.
#[derive(Debug, Clone)]
pub struct Update {
    pub update_id: i64,
    pub callback_query: Option<CallbackQuery>,
}

/// A button that was pressed.
#[derive(Debug, Clone)]
pub struct CallbackQuery {
    pub id: String,
    pub data: Option<String>,
    pub from: Option<CallbackFrom>,
    pub message: Option<CallbackMessage>,
}

/// Who pressed a button.
#[derive(Debug, Clone)]
pub struct CallbackFrom {
    pub username: Option<String>,
    pub first_name: Option<String>,
}

/// The message that a button belongs to.
#[derive(Debug, Clone)]
pub struct CallbackMessage {
    pub message_id: i64,
    pub chat: CallbackChat,
}

/// The chat that a message belongs to.
#[derive(Debug, Clone)]
pub struct CallbackChat {
    pub id: i64,
}

/// The name that is shown: the user name, else the first name, else `?`.
pub open spec fn shown(username: Option<Seq<char>>, first_name: Option<Seq<char>>) -> Seq<char> {
    match (username, first_name) {
        (Some(name), _) => name,
        (None, Some(name)) => name,
        (None, None) => "?"@,
    }
}

impl CallbackFrom {
    /// The name that is shown.
    pub fn display(&self) -> (out: String)
        ensures
            out@ == shown(opt_text(self.username), opt_text(self.first_name)),
    {
        match &self.username {
            Some(name) => name.clone(),
            None => match &self.first_name {
                Some(name) => name.clone(),
                None => "?".to_string(),
            },
        }
    }
}

/// Where a method of the bot with this token is called.
pub fn url(token: &str, method: &str) -> (out: String)
    ensures
        out@ == API_BASE@ + token@ + "/"@ + method@,
{
    cat4(API_BASE, token, "/", method)
}

/// The text of a preview.
pub open spec fn preview_text(caption: Seq<char>) -> Seq<char> {
    "📬 Aperçu à valider avant publication Instagram :\n\n"@ + caption
}

/// What the button for publishing sends back: the id of the announcement goes
/// with it.
pub open spec fn approve_data(discord_msg_id: Seq<char>) -> Seq<char> {
    "approve:"@ + discord_msg_id
}

/// What the button for cancelling sends back.
pub open spec fn reject_data(discord_msg_id: Seq<char>) -> Seq<char> {
    "reject:"@ + discord_msg_id
}

/// The two buttons below a preview.
pub open spec fn keyboard(discord_msg_id: Seq<char>) -> Seq<char> {
    "{\"inline_keyboard\":[[{\"callback_data\":"@ + crate::json::json_quoted(
        approve_data(discord_msg_id),
    ) + ",\"text\":"@ + crate::json::json_quoted("✅ Publier sur Instagram"@)
        + "},{\"callback_data\":"@ + crate::json::json_quoted(reject_data(discord_msg_id))
        + ",\"text\":"@ + crate::json::json_quoted("❌ Annuler"@) + "}]]}"@
}

/// The body of the request that sends a preview.
pub open spec fn preview_request(
    chat_id: i64,
    caption: Seq<char>,
    discord_msg_id: Seq<char>,
) -> Seq<char> {
    "{\"chat_id\":"@ + crate::text::signed_decimal(chat_id as int)
        + ",\"disable_web_page_preview\":true,\"reply_markup\":"@ + keyboard(discord_msg_id)
        + ",\"text\":"@ + crate::json::json_quoted(preview_text(caption)) + "}"@
}

/// Writes the two buttons below a preview.
fn write_keyboard(discord_msg_id: &str) -> (out: String)
    ensures
        out@ == keyboard(discord_msg_id@),
{
    let approve = cat2("approve:", discord_msg_id);
    let reject = cat2("reject:", discord_msg_id);
    let first = cat5(
        "{\"inline_keyboard\":[[{\"callback_data\":",
        quote(approve.as_str()).as_str(),
        ",\"text\":",
        quote("✅ Publier sur Instagram").as_str(),
        "},{\"callback_data\":",
    );
    cat5(
        first.as_str(),
        quote(reject.as_str()).as_str(),
        ",\"text\":",
        quote("❌ Annuler").as_str(),
        "}]]}",
    )
}

/// Writes the body of the request that sends a preview.
pub fn preview_body(chat_id: i64, caption: &str, discord_msg_id: &str) -> (out: String)
    ensures
        out@ == preview_request(chat_id, caption@, discord_msg_id@),
{
    let text = cat2("📬 Aperçu à valider avant publication Instagram :\n\n", caption);
    cat7(
        "{\"chat_id\":",
        print_i64(chat_id).as_str(),
        ",\"disable_web_page_preview\":true,\"reply_markup\":",
        write_keyboard(discord_msg_id).as_str(),
        ",\"text\":",
        quote(text.as_str()).as_str(),
        "}",
    )
}

/// The body of the request that answers a pressed button, with a short text
/// where there is one.
pub open spec fn answer_request(callback_id: Seq<char>, text: Option<Seq<char>>) -> Seq<char> {
    match text {
        Some(t) => "{\"callback_query_id\":"@ + crate::json::json_quoted(callback_id)
            + ",\"text\":"@ + crate::json::json_quoted(t) + "}"@,
        None => "{\"callback_query_id\":"@ + crate::json::json_quoted(callback_id) + "}"@,
    }
}

/// Writes the body of the request that answers a pressed button.
pub fn answer_body(callback_id: &str, text: &Option<String>) -> (out: String)
    ensures
        out@ == answer_request(callback_id@, opt_text(*text)),
{
    match text {
        Some(t) => cat5(
            "{\"callback_query_id\":",
            quote(callback_id).as_str(),
            ",\"text\":",
            quote(t.as_str()).as_str(),
            "}",
        ),
        None => cat3("{\"callback_query_id\":", quote(callback_id).as_str(), "}"),
    }
}

/// The body of the request that overwrites a message and takes its buttons
/// away.
pub open spec fn edit_request(chat_id: i64, message_id: i64, text: Seq<char>) -> Seq<char> {
    "{\"chat_id\":"@ + crate::text::signed_decimal(chat_id as int) + ",\"message_id\":"@
        + crate::text::signed_decimal(message_id as int)
        + ",\"reply_markup\":{\"inline_keyboard\":[]},\"text\":"@ + crate::json::json_quoted(text)
        + "}"@
}

/// Writes the body of the request that overwrites a message.
pub fn edit_body(chat_id: i64, message_id: i64, text: &str) -> (out: String)
    ensures
        out@ == edit_request(chat_id, message_id, text@),
{
    cat7(
        "{\"chat_id\":",
        print_i64(chat_id).as_str(),
        ",\"message_id\":",
        print_i64(message_id).as_str(),
        ",\"reply_markup\":{\"inline_keyboard\":[]},\"text\":",
        quote(text).as_str(),
        "}",
    )
}

/// The body of the request for updates, from an offset on where there is one.
pub open spec fn updates_request(offset: Option<i64>) -> Seq<char> {
    match offset {
        Some(n) => "{\"allowed_updates\":[\"callback_query\"],\"offset\":"@
            + crate::text::signed_decimal(n as int) + ",\"timeout\":"@ + crate::text::decimal(
            LONG_POLL_TIMEOUT_SECS as nat,
        ) + "}"@,
        None => "{\"allowed_updates\":[\"callback_query\"],\"timeout\":"@ + crate::text::decimal(
            LONG_POLL_TIMEOUT_SECS as nat,
        ) + "}"@,
    }
}

/// Writes the body of the request for updates.
pub fn updates_body(offset: Option<i64>) -> (out: String)
    ensures
        out@ == updates_request(offset),
{
    let timeout = print_u64(LONG_POLL_TIMEOUT_SECS);
    match offset {
        Some(n) => cat5(
            "{\"allowed_updates\":[\"callback_query\"],\"offset\":",
            print_i64(n).as_str(),
            ",\"timeout\":",
            timeout.as_str(),
            "}",
        ),
        None => cat3(
            "{\"allowed_updates\":[\"callback_query\"],\"timeout\":",
            timeout.as_str(),
            "}",
        ),
    }
}

/// The body of a reply, where its status is one of success.
pub fn check_status(status: u16, body: String) -> (r: Result<String, Error>)
    ensures
        match r {
            Ok(b) => crate::discord::is_success(status) && b@ == body@,
            Err(e) => !crate::discord::is_success(status) && e@ == (ErrorModel::Http {
                status,
                body: body@,
            }),
        },
{
    if success(status) {
        Ok(body)
    } else {
        Err(Error::Http { status, body })
    }
}

/// A body that could not be parsed.
pub fn parse_error(reason: &str, body: &str) -> (e: Error)
    ensures
        e@ == ErrorModel::Parse(reason@ + " — body was: "@ + body@),
{
    Error::Parse(cat3(reason, " — body was: ", body))
}

/// The message id in a parsed reply: `ok`, the description of a refusal and the
/// id of the message that was sent, zero where the reply holds none.
pub fn sent_message_id(
    ok: bool,
    description: &Option<String>,
    message_id: Option<i64>,
) -> (r: Result<i64, Error>)
    ensures
        match r {
            Ok(id) => ok && id == (match message_id {
                Some(n) => n,
                None => 0,
            }),
            Err(e) => !ok && e@ == (ErrorModel::Api {
                description: crate::gateway::text_or(opt_text(*description), ""@),
            }),
        },
{
    if ok {
        match message_id {
            Some(n) => Ok(n),
            None => Ok(0),
        }
    } else {
        Err(Error::Api { description: or_text(description, "") })
    }
}

/// The updates in a parsed reply: `ok`, the description of a refusal and the
/// updates, none where the reply holds none.
pub fn received_updates(
    ok: bool,
    description: &Option<String>,
    updates: Option<Vec<Update>>,
) -> (r: Result<Vec<Update>, Error>)
    ensures
        match r {
            Ok(us) => ok && us@ == (match updates {
                Some(v) => v@,
                None => Seq::empty(),
            }),
            Err(e) => !ok && e@ == (ErrorModel::Api {
                description: crate::gateway::text_or(opt_text(*description), ""@),
            }),
        },
{
    if ok {
        match updates {
            Some(v) => Ok(v),
            None => Ok(Vec::new()),
        }
    } else {
        Err(Error::Api { description: or_text(description, "") })
    }
}

/// The offset from which to ask for updates after these: one behind the
/// greatest id, as far as there is one, or the offset asked from where there
/// are none.
pub open spec fn offset_after(updates: Seq<Update>, offset: Option<i64>) -> Option<i64>
    decreases updates.len(),
{
    if updates.len() == 0 {
        offset
    } else {
        let earlier = offset_after(updates.drop_last(), offset);
        let id = updates.last().update_id;
        let next = if id < i64::MAX {
            (id + 1) as i64
        } else {
            id
        };
        match earlier {
            Some(n) if n > next => earlier,
            _ => Some(next),
        }
    }
}

/// The offset from which to ask for updates after these.
pub fn next_offset(updates: &Vec<Update>, offset: Option<i64>) -> (next: Option<i64>)
    ensures
        next == offset_after(updates@, offset),
{
    let mut out: Option<i64> = offset;
    let mut i: usize = 0;
    while i < updates.len()
        invariant
            i <= updates.len(),
            out == offset_after(updates@.take(i as int), offset),
        decreases updates.len() - i,
    {
        assert(updates@.take(i + 1).drop_last() == updates@.take(i as int));
        assert(updates@.take(i + 1).last() == updates@[i as int]);
        let id: i64 = updates[i].update_id;
        let next: i64 = if id < i64::MAX {
            id + 1
        } else {
            id
        };
        out = match out {
            Some(n) if n > next => Some(n),
            _ => Some(next),
        };
        i += 1;
    }
    assert(updates@.take(i as int) == updates@);
    out
}

/// No update is asked for again, and the offset never goes back.
pub proof fn law_offset_moves_on(updates: Seq<Update>, offset: Option<i64>)
    ensures
        offset is Some ==> offset_after(updates, offset) is Some && offset_after(updates, offset)->0
            >= offset->0,
        forall|i: int|
            0 <= i < updates.len() && #[trigger] updates[i].update_id < i64::MAX
                ==> offset_after(updates, offset) is Some && offset_after(updates, offset)->0
                > updates[i].update_id,
    decreases updates.len(),
{
    if updates.len() > 0 {
        let earlier = updates.drop_last();
        law_offset_moves_on(earlier, offset);
        assert forall|i: int|
            0 <= i < updates.len() && #[trigger] updates[i].update_id
                < i64::MAX implies offset_after(updates, offset) is Some && offset_after(
            updates,
            offset,
        )->0 > updates[i].update_id by {
            if i < earlier.len() {
                assert(earlier[i] == updates[i]);
            }
        }
    }
}

/// The name under which an image is sent: that of its file, or a name of its
/// own where the file has none that can be read.
pub fn image_name(file_name: &Option<String>) -> (out: String)
    ensures
        out@ == crate::gateway::text_or(opt_text(*file_name), "image.png"@),
{
    or_text(file_name, "image.png")
}

/// The buttons of one announcement send different things, and the buttons of
/// different announcements send different things.
pub proof fn law_buttons_kept_apart(a: Seq<char>, b: Seq<char>)
    ensures
        approve_data(a) != reject_data(b),
        approve_data(a) == approve_data(b) ==> a == b,
        reject_data(a) == reject_data(b) ==> a == b,
{
    reveal_strlit("approve:");
    reveal_strlit("reject:");
    assert(approve_data(a)[0] == 'a');
    assert(reject_data(b)[0] == 'r');
    assert(approve_data(a).skip(8) =~= a);
    assert(approve_data(b).skip(8) =~= b);
    assert(reject_data(a).skip(7) =~= a);
    assert(reject_data(b).skip(7) =~= b);
}

/// What each button sends back: what it is for and the id of the announcement.
pub proof fn law_what_buttons_send(id: Seq<char>)
    ensures
        approve_data(id) == "approve:"@ + id,
        reject_data(id) == "reject:"@ + id,
{
}

/// A preview shows the whole caption and has two buttons: the one for publishing
/// sends the approval of that announcement, the one for cancelling its rejection.
pub proof fn law_preview(chat_id: i64, caption: Seq<char>, id: Seq<char>)
    ensures
        preview_text(caption) == "📬 Aperçu à valider avant publication Instagram :\n\n"@ + caption,
        keyboard(id) == "{\"inline_keyboard\":[[{\"callback_data\":"@ + crate::json::json_quoted(
            "approve:"@ + id,
        ) + ",\"text\":"@ + crate::json::json_quoted("✅ Publier sur Instagram"@)
            + "},{\"callback_data\":"@ + crate::json::json_quoted("reject:"@ + id) + ",\"text\":"@
            + crate::json::json_quoted("❌ Annuler"@) + "}]]}"@,
        preview_request(chat_id, caption, id) == "{\"chat_id\":"@ + crate::text::signed_decimal(
            chat_id as int,
        ) + ",\"disable_web_page_preview\":true,\"reply_markup\":"@ + keyboard(id) + ",\"text\":"@
            + crate::json::json_quoted(
            "📬 Aperçu à valider avant publication Instagram :\n\n"@ + caption,
        ) + "}"@,
{
}

/// The other requests: an answer holds the id of the press and the text where
/// there is one, an edit overwrites just that message and takes the buttons away,
/// and updates are asked for from the offset on where there is one.
pub proof fn law_other_requests(chat_id: i64, message_id: i64, a: Seq<char>, b: Seq<char>)
    ensures
        answer_request(a, None) == "{\"callback_query_id\":"@ + crate::json::json_quoted(a) + "}"@,
        answer_request(a, Some(b)) == "{\"callback_query_id\":"@ + crate::json::json_quoted(a)
            + ",\"text\":"@ + crate::json::json_quoted(b) + "}"@,
        edit_request(chat_id, message_id, a) == "{\"chat_id\":"@ + crate::text::signed_decimal(
            chat_id as int,
        ) + ",\"message_id\":"@ + crate::text::signed_decimal(message_id as int)
            + ",\"reply_markup\":{\"inline_keyboard\":[]},\"text\":"@ + crate::json::json_quoted(a)
            + "}"@,
        updates_request(Some(chat_id)) == "{\"allowed_updates\":[\"callback_query\"],\"offset\":"@
            + crate::text::signed_decimal(chat_id as int) + ",\"timeout\":"@ + crate::text::decimal(
            25,
        ) + "}"@,
        updates_request(None) == "{\"allowed_updates\":[\"callback_query\"],\"timeout\":"@
            + crate::text::decimal(25) + "}"@,
{
}

/// Who pressed a button is shown under the user name, else under the first name,
/// else as `?`.
pub proof fn law_shown_name(username: Option<Seq<char>>, first_name: Option<Seq<char>>)
    ensures
        username is Some ==> shown(username, first_name) == username->0,
        username is None && first_name is Some ==> shown(username, first_name) == first_name->0,
        username is None && first_name is None ==> shown(username, first_name) == "?"@,
{
}

/// The next offset is no further than it has to be: it is the one that was asked
/// from, or one behind the id of an update that came.
pub proof fn law_offset_skips_nothing(updates: Seq<Update>, offset: Option<i64>)
    ensures
        offset_after(updates, offset) == offset || exists|i: int|
            0 <= i < updates.len() && #[trigger] updates[i].update_id < i64::MAX && offset_after(
                updates,
                offset,
            ) == Some((updates[i].update_id + 1) as i64) || (0 <= i < updates.len()
                && updates[i].update_id == i64::MAX && offset_after(updates, offset) == Some(
                i64::MAX,
            )),
    decreases updates.len(),
{
    if updates.len() > 0 {
        let earlier = updates.drop_last();
        let n = updates.len() - 1;
        law_offset_skips_nothing(earlier, offset);
        let before = offset_after(earlier, offset);
        let after = offset_after(updates, offset);
        assert(updates[n] == updates.last());
        if after == before && before != offset {
            let i = choose|i: int|
                0 <= i < earlier.len() && #[trigger] earlier[i].update_id < i64::MAX && before
                    == Some((earlier[i].update_id + 1) as i64) || (0 <= i < earlier.len()
                    && earlier[i].update_id == i64::MAX && before == Some(i64::MAX));
            assert(updates[i] == earlier[i]);
            assert(updates[i].update_id == earlier[i].update_id);
        } else if after != before {
            assert(updates[n].update_id == updates.last().update_id);
        }
    }
}

/// What is said of each failed request.
pub proof fn law_words_of_failures(status: u16, a: Seq<char>)
    ensures
        error_text(ErrorModel::Http { status, body: a }) == "Telegram HTTP "@
            + crate::text::decimal(status as nat) + ": "@ + a,
        error_text(ErrorModel::Transport(a)) == "Telegram network error: "@ + a,
        error_text(ErrorModel::Parse(a)) == "Telegram response parse error: "@ + a,
        error_text(ErrorModel::Api { description: a }) == "Telegram API error: "@ + a,
{
}

/// The fixed values of the interface.
pub proof fn law_fixed_values()
    ensures
        API_BASE@ == "https://api.telegram.org/bot"@,
        LONG_POLL_TIMEOUT_SECS == 25,
        REQUEST_TIMEOUT_SECS == 40,
{
}

/// The model of an error holds all that the value holds, its texts as characters.
pub proof fn law_model_of_error(x: Error)
    ensures
        x@ == (match x {
            Error::Http { status, body } => ErrorModel::Http { status, body: body@ },
            Error::Transport(e) => ErrorModel::Transport(e@),
            Error::Parse(e) => ErrorModel::Parse(e@),
            Error::Api { description } => ErrorModel::Api { description: description@ },
        }),
{
}

} // verus!
