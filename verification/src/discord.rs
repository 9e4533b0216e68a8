//! Discord's REST interface: messages, the requests that are made and what
//! their replies mean.

use vstd::prelude::*;

use crate::json::opt_text;
use crate::text::{cat2, cat3, cat4, cat6, join, print_u64};

verus! {

/// Where the interface is reached.
pub const API_BASE: &'static str = "https://discord.com/api/v10";

/// How the bot names itself.
pub const USER_AGENT: &'static str =
    "DiscordBot (https://github.com/extragornax/discord_to_insta, 0.1.0)";

/// How long a request may take, in seconds.
pub const TIMEOUT_SECS: u64 = 30;

/// A message.
#[derive(Debug, Clone)]
pub struct Message {
    pub id: String,
    pub content: String,
    pub timestamp: String,
    pub author: Author,
    pub attachments: Vec<Attachment>,
    pub mentions: Vec<User>,
    pub embeds: Vec<Embed>,
}

/// A rich part of a message.
#[derive(Debug, Clone)]
pub struct Embed {
    pub title: Option<String>,
    pub description: Option<String>,
    pub fields: Vec<EmbedField>,
}

/// A named value in an embed.
#[derive(Debug, Clone)]
pub struct EmbedField {
    pub name: String,
    pub value: String,
    pub inline: bool,
}

/// Who wrote a message.
#[derive(Debug, Clone)]
pub struct Author {
    pub id: String,
    pub username: String,
    pub global_name: Option<String>,
}

/// Someone mentioned in a message.
#[derive(Debug, Clone)]
pub struct User {
    pub id: String,
    pub username: String,
    pub global_name: Option<String>,
}

/// A file that came with a message.
#[derive(Debug, Clone)]
pub struct Attachment {
    pub id: String,
    pub url: String,
    pub filename: String,
    pub content_type: Option<String>,
}

/// The text of an optional part, nothing where it is missing or empty.
pub open spec fn filled(part: Option<Seq<char>>) -> Seq<Seq<char>> {
    match part {
        Some(t) if t.len() > 0 => seq![t],
        _ => Seq::empty(),
    }
}

/// A field as one line.
pub open spec fn field_line(f: EmbedField) -> Seq<char> {
    f.name@ + " : "@ + f.value@
}

/// The parts of an embed: its title and its description where they are not
/// empty, and a line for each field.
pub open spec fn embed_parts(e: Embed) -> Seq<Seq<char>> {
    filled(opt_text(e.title)) + filled(opt_text(e.description)) + e.fields@.map_values(
        |f: EmbedField| field_line(f),
    )
}

/// The text of a message: its content, or what its first embed says.
pub open spec fn body_of(m: Message) -> Seq<char> {
    if m.content@.len() > 0 {
        m.content@
    } else if m.embeds@.len() > 0 {
        crate::text::joined(embed_parts(m.embeds@[0]), "\n\n"@)
    } else {
        Seq::empty()
    }
}

impl Message {
    /// The text to work with: the content, or else the parts of the first
    /// embed with an empty line between them.
    pub fn synthesized_body(&self) -> (out: String)
        ensures
            out@ == body_of(*self),
    {
        if !self.content.as_str().is_empty() {
            return self.content.clone();
        }
        if self.embeds.len() == 0 {
            return String::new();
        }
        let e = &self.embeds[0];
        let mut parts: Vec<String> = Vec::new();
        if let Some(t) = &e.title {
            if !t.as_str().is_empty() {
                parts.push(t.clone());
            }
        }
        assert(crate::strmap::texts(parts@) =~= filled(opt_text(e.title)));
        let ghost titled = crate::strmap::texts(parts@);
        if let Some(d) = &e.description {
            if !d.as_str().is_empty() {
                parts.push(d.clone());
            }
        }
        assert(crate::strmap::texts(parts@) =~= titled + filled(opt_text(e.description)));
        let ghost head = crate::strmap::texts(parts@);
        let ghost line = |f: EmbedField| field_line(f);
        let mut i: usize = 0;
        assert(crate::strmap::texts(parts@) =~= head + e.fields@.take(0).map_values(line));
        while i < e.fields.len()
            invariant
                i <= e.fields.len(),
                line == (|f: EmbedField| field_line(f)),
                crate::strmap::texts(parts@) == head + e.fields@.take(i as int).map_values(line),
            decreases e.fields.len() - i,
        {
            let f = &e.fields[i];
            let ghost so_far = crate::strmap::texts(parts@);
            parts.push(cat3(f.name.as_str(), " : ", f.value.as_str()));
            assert(crate::strmap::texts(parts@) =~= so_far.push(field_line(*f)));
            assert(e.fields@.take(i + 1).map_values(line) =~= e.fields@.take(i as int).map_values(
                line,
            ).push(field_line(*f)));
            assert(crate::strmap::texts(parts@) =~= head + e.fields@.take(i + 1).map_values(line));
            i += 1;
        }
        assert(e.fields@.take(i as int) == e.fields@);
        join(&parts, "\n\n")
    }
}

/// The name that is shown: the global name, or the user name where there is
/// none.
pub open spec fn shown(global_name: Option<String>, username: String) -> Seq<char> {
    match global_name {
        Some(name) => name@,
        None => username@,
    }
}

impl Author {
    /// The name that is shown.
    pub fn display(&self) -> (name: &str)
        ensures
            name@ == shown(self.global_name, self.username),
    {
        match &self.global_name {
            Some(name) => name.as_str(),
            None => self.username.as_str(),
        }
    }
}

impl User {
    /// The name that is shown.
    pub fn display(&self) -> (name: &str)
        ensures
            name@ == shown(self.global_name, self.username),
    {
        match &self.global_name {
            Some(name) => name.as_str(),
            None => self.username.as_str(),
        }
    }
}

/// Why a request failed.
#[derive(Debug)]
pub enum Error {
    Unauthorized,
    Forbidden,
    NotFound,
    RateLimited { retry_after_ms: u64 },
    Http { status: u16, body: String },
    Transport(String),
    Parse(String),
}

/// Why a request failed, with texts as characters.
pub enum ErrorModel {
    Unauthorized,
    Forbidden,
    NotFound,
    RateLimited { retry_after_ms: u64 },
    Http { status: u16, body: Seq<char> },
    Transport(Seq<char>),
    Parse(Seq<char>),
}

impl View for Error {
    type V = ErrorModel;

    open spec fn view(&self) -> ErrorModel {
        match *self {
            Error::Unauthorized => ErrorModel::Unauthorized,
            Error::Forbidden => ErrorModel::Forbidden,
            Error::NotFound => ErrorModel::NotFound,
            Error::RateLimited { retry_after_ms } => ErrorModel::RateLimited { retry_after_ms },
            Error::Http { status, body } => ErrorModel::Http { status, body: body@ },
            Error::Transport(e) => ErrorModel::Transport(e@),
            Error::Parse(e) => ErrorModel::Parse(e@),
        }
    }
}

/// What is said of a failed request.
pub open spec fn error_text(e: ErrorModel) -> Seq<char> {
    match e {
        ErrorModel::Unauthorized =>
            "Discord rejected the bot token (401). Check DISCORD_BOT_TOKEN."@,
        ErrorModel::Forbidden =>
            "Forbidden (403). Bot needs View Channel + Read Message History (fetch) and Add Reactions (auto-react)."@,
        ErrorModel::NotFound => "Channel not found (404). Wrong channel ID?"@,
        ErrorModel::RateLimited { retry_after_ms } => "Rate limited. Retry in "@
            + crate::text::decimal(retry_after_ms as nat) + "ms."@,
        ErrorModel::Http { status, body } => "Discord HTTP "@ + crate::text::decimal(status as nat)
            + ": "@ + body,
        ErrorModel::Transport(e) => "Network error: "@ + e,
        ErrorModel::Parse(e) => "Failed to parse Discord response: "@ + e,
    }
}

impl Error {
    /// What is said of the failed request.
    pub fn message(&self) -> (out: String)
        ensures
            out@ == error_text(self@),
    {
        match self {
            Error::Unauthorized =>
                "Discord rejected the bot token (401). Check DISCORD_BOT_TOKEN.".to_string(),
            Error::Forbidden =>
                "Forbidden (403). Bot needs View Channel + Read Message History (fetch) and Add Reactions (auto-react).".to_string(),
            Error::NotFound => "Channel not found (404). Wrong channel ID?".to_string(),
            Error::RateLimited { retry_after_ms } => cat3(
                "Rate limited. Retry in ",
                print_u64(*retry_after_ms).as_str(),
                "ms.",
            ),
            Error::Http { status, body } => cat4(
                "Discord HTTP ",
                print_u64(*status as u64).as_str(),
                ": ",
                body.as_str(),
            ),
            Error::Transport(e) => cat2("Network error: ", e.as_str()),
            Error::Parse(e) => cat2("Failed to parse Discord response: ", e.as_str()),
        }
    }
}

/// Whether a status means success.
pub open spec fn is_success(status: u16) -> bool {
    200 <= status < 300
}

/// Whether a status means success.
pub fn success(status: u16) -> (r: bool)
    ensures
        r == is_success(status),
{
    200 <= status && status < 300
}

/// What a status without success means, where `retry_after_ms` is the pause
/// that the body asks for.
pub open spec fn failure(status: u16, body: Seq<char>, retry_after_ms: u64) -> ErrorModel {
    if status == 401 {
        ErrorModel::Unauthorized
    } else if status == 403 {
        ErrorModel::Forbidden
    } else if status == 404 {
        ErrorModel::NotFound
    } else if status == 429 {
        ErrorModel::RateLimited { retry_after_ms }
    } else {
        ErrorModel::Http { status, body }
    }
}

/// What a status without success means, where `retry_after_ms` is the pause
/// that the body asks for, zero where it asks for none.
pub fn map_status(status: u16, body: String, retry_after_ms: u64) -> (e: Error)
    ensures
        e@ == failure(status, body@, retry_after_ms),
{
    match status {
        401 => Error::Unauthorized,
        403 => Error::Forbidden,
        404 => Error::NotFound,
        429 => Error::RateLimited { retry_after_ms },
        _ => Error::Http { status, body },
    }
}

/// The body of a reply, where it is one of success.
pub fn read_reply(status: u16, body: String, retry_after_ms: u64) -> (r: Result<String, Error>)
    ensures
        match r {
            Ok(b) => is_success(status) && b@ == body@,
            Err(e) => !is_success(status) && e@ == failure(status, body@, retry_after_ms),
        },
{
    if success(status) {
        Ok(body)
    } else {
        Err(map_status(status, body, retry_after_ms))
    }
}

/// A body that could not be parsed.
pub fn parse_error(reason: &str, body: &str) -> (e: Error)
    ensures
        e@ == ErrorModel::Parse(reason@ + " — body was: "@ + body@),
{
    Error::Parse(cat3(reason, " — body was: ", body))
}

/// The number of messages that is asked for: from 1 to 100.
pub open spec fn clamped(limit: u32) -> int {
    if limit < 1 {
        1
    } else if limit > 100 {
        100
    } else {
        limit as int
    }
}

/// Where the most recent messages of a channel are fetched, newest first.
pub fn messages_url(channel_id: &str, limit: u32) -> (out: String)
    ensures
        out@ == API_BASE@ + "/channels/"@ + channel_id@ + "/messages?limit="@
            + crate::text::decimal(clamped(limit) as nat),
{
    let n: u64 = if limit < 1 {
        1
    } else if limit > 100 {
        100
    } else {
        limit as u64
    };
    let head = cat4(API_BASE, "/channels/", channel_id, "/messages?limit=");
    cat2(head.as_str(), print_u64(n).as_str())
}

/// Where a reaction to a message is placed.
pub fn reaction_url(channel_id: &str, message_id: &str, emoji: &str) -> (out: String)
    ensures
        out@ == API_BASE@ + "/channels/"@ + channel_id@ + "/messages/"@ + message_id@
            + "/reactions/"@ + percent_encoded(vstd::utf8::encode_utf8(emoji@)) + "/@me"@,
{
    let head = cat6(API_BASE, "/channels/", channel_id, "/messages/", message_id, "/reactions/");
    let encoded = percent_encode(emoji);
    cat3(head.as_str(), encoded.as_str(), "/@me")
}

/// The value of the header that authorizes a request.
pub fn authorization(token: &str) -> (out: String)
    ensures
        out@ == "Bot "@ + token@,
{
    cat2("Bot ", token)
}

/// The bytes that stand for themselves in a URL: letters, digits and `-_.~`.
pub open spec fn is_unreserved(b: u8) -> bool {
    ||| 65 <= b <= 90
    ||| 97 <= b <= 122
    ||| 48 <= b <= 57
    ||| b == 45
    ||| b == 95
    ||| b == 46
    ||| b == 126
}

/// The hexadecimal digit for `n`, a capital letter above 9.
pub open spec fn hex_digit(n: int) -> char {
    if n < 10 {
        (48 + n) as char
    } else {
        (55 + n) as char
    }
}

/// A byte as it is written in a URL.
pub open spec fn percent_byte(b: u8) -> Seq<char> {
    if is_unreserved(b) {
        seq![b as char]
    } else {
        seq!['%', hex_digit(b as int / 16), hex_digit(b as int % 16)]
    }
}

/// Bytes as they are written in a URL.
pub open spec fn percent_encoded(bytes: Seq<u8>) -> Seq<char>
    decreases bytes.len(),
{
    if bytes.len() == 0 {
        Seq::empty()
    } else {
        percent_byte(bytes[0]) + percent_encoded(bytes.drop_first())
    }
}

fn hex(n: u8) -> (c: char)
    requires
        n < 16,
    ensures
        c == hex_digit(n as int),
{
    if n < 10 {
        (48 + n) as char
    } else {
        (55 + n) as char
    }
}

/// Writes a text for use in a URL: unreserved characters stand for themselves,
/// every other byte of its UTF-8 form becomes `%` and two hexadecimal digits.
pub fn percent_encode(s: &str) -> (out: String)
    ensures
        out@ == percent_encoded(vstd::utf8::encode_utf8(s@)),
{
    let bytes = s.as_bytes();
    let ghost all = percent_encoded(bytes@);
    let mut out = String::new();
    let mut i: usize = 0;
    assert(bytes@.skip(0) == bytes@);
    assert(out@ + percent_encoded(bytes@.skip(0)) =~= all);
    while i < bytes.len()
        invariant
            i <= bytes.len(),
            out@ + percent_encoded(bytes@.skip(i as int)) == all,
        decreases bytes.len() - i,
    {
        let b = bytes[i];
        let ghost so_far = out@;
        let ghost rest = bytes@.skip(i as int);
        assert(rest.drop_first() == bytes@.skip(i + 1));
        if (65 <= b && b <= 90) || (97 <= b && b <= 122) || (48 <= b && b <= 57) || b == 45 || b
            == 95 || b == 46 || b == 126 {
            out.push(b as char);
            assert(out@ =~= so_far + percent_byte(b));
        } else {
            out.push('%');
            out.push(hex(b / 16));
            out.push(hex(b % 16));
            assert(out@ =~= so_far + percent_byte(b));
        }
        assert(so_far + (percent_byte(b) + percent_encoded(rest.drop_first())) =~= out@
            + percent_encoded(rest.drop_first()));
        i += 1;
    }
    assert(percent_encoded(bytes@.skip(i as int)) =~= Seq::<char>::empty());
    assert(out@ =~= all);
    out
}

/// The number that a hexadecimal digit stands for.
pub open spec fn hex_value(c: char) -> int {
    if c <= '9' {
        c as int - 48
    } else {
        c as int - 55
    }
}

/// The bytes that a part of a URL stands for.
pub open spec fn percent_decoded(s: Seq<char>) -> Seq<u8>
    decreases s.len(),
{
    if s.len() == 0 {
        Seq::empty()
    } else if s.len() >= 3 && s[0] == '%' {
        seq![(16 * hex_value(s[1]) + hex_value(s[2])) as u8] + percent_decoded(s.skip(3))
    } else {
        seq![s[0] as u8] + percent_decoded(s.drop_first())
    }
}

/// Decoding gives back the bytes that were encoded.
pub proof fn law_percent_round_trip(bytes: Seq<u8>)
    ensures
        percent_decoded(percent_encoded(bytes)) == bytes,
    decreases bytes.len(),
{
    let s = percent_encoded(bytes);
    if bytes.len() > 0 {
        let b = bytes[0];
        let rest = bytes.drop_first();
        law_percent_round_trip(rest);
        if is_unreserved(b) {
            assert(s.drop_first() =~= percent_encoded(rest));
            assert(s[0] == b as char);
        } else {
            assert(s.skip(3) =~= percent_encoded(rest));
            assert(s[0] == '%');
            assert(s[1] == hex_digit(b as int / 16));
            assert(s[2] == hex_digit(b as int % 16));
        }
        assert(percent_decoded(s) =~= seq![b] + rest);
        assert(seq![b] + rest =~= bytes);
    } else {
        assert(percent_decoded(s) =~= bytes);
    }
}

/// The characters that stand for themselves in a URL.
pub open spec fn is_plain(c: char) -> bool {
    '\0' <= c <= '\u{7f}' && is_unreserved(c as u8)
}

/// A text of unreserved characters is left as it is.
pub proof fn law_unreserved_unchanged(s: Seq<char>)
    requires
        forall|i: int| 0 <= i < s.len() ==> is_plain(#[trigger] s[i]),
    ensures
        percent_encoded(vstd::utf8::encode_utf8(s)) == s,
{
    let bytes = vstd::utf8::encode_utf8(s);
    assert forall|i: int| 0 <= i < s.len() implies '\0' <= #[trigger] s[i] <= '\u{7f}' by {
        assert(is_plain(s[i]));
    }
    assert(vstd::utf8::is_ascii_chars(s));
    vstd::utf8::is_ascii_chars_encode_utf8(s);
    assert forall|i: int| 0 <= i < s.len() implies is_unreserved(#[trigger] bytes[i])
        && bytes[i] as char == s[i] by {
        assert(is_plain(s[i]));
    }
    lemma_plain_bytes(bytes, s);
}

proof fn lemma_plain_bytes(bytes: Seq<u8>, s: Seq<char>)
    requires
        bytes.len() == s.len(),
        forall|i: int|
            0 <= i < s.len() ==> is_unreserved(#[trigger] bytes[i]) && bytes[i] as char == s[i],
    ensures
        percent_encoded(bytes) == s,
    decreases s.len(),
{
    if s.len() > 0 {
        let b = bytes.drop_first();
        let t = s.drop_first();
        assert forall|i: int| 0 <= i < t.len() implies is_unreserved(#[trigger] b[i])
            && b[i] as char == t[i] by {
            assert(b[i] == bytes[i + 1]);
        }
        lemma_plain_bytes(b, t);
        assert(is_unreserved(bytes[0]));
        assert(seq![s[0]] + t =~= s);
    } else {
        assert(percent_encoded(bytes) =~= s);
    }
}

/// A capital hexadecimal digit.
pub open spec fn is_capital_hex(c: char) -> bool {
    '0' <= c <= '9' || 'A' <= c <= 'F'
}

/// What is written for a URL consists of unreserved characters and of `%`, each
/// followed by two capital hexadecimal digits.
pub proof fn law_percent_alphabet(bytes: Seq<u8>)
    ensures
        forall|i: int|
            0 <= i < percent_encoded(bytes).len() ==> is_plain(
                #[trigger] percent_encoded(bytes)[i],
            ) || percent_encoded(bytes)[i] == '%',
        forall|i: int|
            0 <= i < percent_encoded(bytes).len() && #[trigger] percent_encoded(bytes)[i] == '%'
                ==> {
                &&& i + 2 < percent_encoded(bytes).len()
                &&& is_capital_hex(percent_encoded(bytes)[i + 1])
                &&& is_capital_hex(percent_encoded(bytes)[i + 2])
            },
    decreases bytes.len(),
{
    if bytes.len() > 0 {
        let rest = bytes.drop_first();
        law_percent_alphabet(rest);
        let s = percent_encoded(bytes);
        let p = percent_byte(bytes[0]);
        let t = percent_encoded(rest);
        assert forall|i: int| 0 <= i < s.len() implies is_plain(#[trigger] s[i]) || s[i] == '%' by {
            if i < p.len() {
                assert(s[i] == p[i]);
            } else {
                assert(s[i] == t[i - p.len()]);
            }
        }
        assert forall|i: int| 0 <= i < s.len() && #[trigger] s[i] == '%' implies i + 2 < s.len()
            && is_capital_hex(s[i + 1]) && is_capital_hex(s[i + 2]) by {
            if i < p.len() {
                assert(s[i] == p[i]);
                assert(i == 0 && s[1] == p[1] && s[2] == p[2]);
            } else {
                let k = i - p.len();
                assert(s[i] == t[k]);
                assert(s[i + 1] == t[k + 1] && s[i + 2] == t[k + 2]);
            }
        }
    }
}

/// A message with content is its content, whatever its embeds; one without
/// either has no text.
pub proof fn law_content_comes_first(m: Message)
    ensures
        m.content@.len() > 0 ==> body_of(m) == m.content@,
        m.content@.len() == 0 && m.embeds@.len() == 0 ==> body_of(m) == Seq::<char>::empty(),
{
}

/// Of a message without content whose first embed has no fields, the title and
/// the description are the text, each where it is not empty and whether or not
/// the other is there, with an empty line between them.
pub proof fn law_title_and_description(m: Message)
    requires
        m.content@.len() == 0,
        m.embeds@.len() > 0,
        m.embeds@[0].fields@.len() == 0,
    ensures
        ({
            let title = match m.embeds@[0].title {
                Some(t) => t@,
                None => Seq::empty(),
            };
            let description = match m.embeds@[0].description {
                Some(d) => d@,
                None => Seq::empty(),
            };
            if title.len() == 0 {
                body_of(m) == description
            } else if description.len() == 0 {
                body_of(m) == title
            } else {
                body_of(m) == title + "\n\n"@ + description
            }
        }),
{
    let e = m.embeds@[0];
    let t = filled(opt_text(e.title));
    let d = filled(opt_text(e.description));
    let parts = embed_parts(e);
    assert(parts =~= t + d);
    if t.len() == 1 && d.len() == 1 {
        assert(parts =~= seq![t[0]] + d);
        crate::text::law_joined_from_the_front(t[0], d, "\n\n"@);
        crate::text::law_joined_from_the_front(d[0], d, "\n\n"@);
        assert(d =~= seq![d[0]]);
    } else if t.len() == 1 {
        assert(parts =~= seq![t[0]]);
    } else if d.len() == 1 {
        assert(parts =~= seq![d[0]]);
    } else {
        assert(parts =~= Seq::<Seq<char>>::empty());
    }
}

/// One more field adds its line behind the rest of the text, with an empty line
/// before it unless it is the first thing there.
pub proof fn law_field_added(m: Message, more: Message, f: EmbedField)
    requires
        m.content@.len() == 0,
        more.content@.len() == 0,
        m.embeds@.len() > 0,
        more.embeds@.len() > 0,
        opt_text(more.embeds@[0].title) == opt_text(m.embeds@[0].title),
        opt_text(more.embeds@[0].description) == opt_text(m.embeds@[0].description),
        more.embeds@[0].fields@ == m.embeds@[0].fields@.push(f),
    ensures
        ({
            let line = f.name@ + " : "@ + f.value@;
            let alone = m.embeds@[0].fields@.len() == 0 && body_of(m).len() == 0;
            body_of(more) == if alone {
                line
            } else {
                body_of(m) + "\n\n"@ + line
            }
        }),
{
    let p = embed_parts(m.embeds@[0]);
    let q = embed_parts(more.embeds@[0]);
    let line = |g: EmbedField| field_line(g);
    assert(more.embeds@[0].fields@.map_values(line) =~= m.embeds@[0].fields@.map_values(line).push(
        field_line(f),
    ));
    assert(q =~= p.push(field_line(f)));
    assert(q.drop_last() =~= p);
    if m.embeds@[0].fields@.len() == 0 {
        law_title_and_description(m);
        reveal_strlit("\n\n");
    }
}

/// Each part of the first embed that is not empty stands in the text on its own
/// account: the title, the description and the line of each field.
pub proof fn law_every_part_stands_in_the_text(m: Message, part: Seq<char>) -> (at: int)
    requires
        m.content@.len() == 0,
        m.embeds@.len() > 0,
        ({
            let e = m.embeds@[0];
            ||| part.len() > 0 && e.title is Some && part == e.title->0@
            ||| part.len() > 0 && e.description is Some && part == e.description->0@
            ||| exists|i: int|
                0 <= i < e.fields@.len() && part == (#[trigger] e.fields@[i]).name@ + " : "@
                    + e.fields@[i].value@
        }),
    ensures
        0 <= at,
        at + part.len() <= body_of(m).len(),
        body_of(m).subrange(at, at + part.len()) == part,
{
    let e = m.embeds@[0];
    let t = filled(opt_text(e.title));
    let d = filled(opt_text(e.description));
    let line = |g: EmbedField| field_line(g);
    let fs = e.fields@.map_values(line);
    let parts = embed_parts(e);
    assert(parts == t + d + fs);
    let k = if part.len() > 0 && e.title is Some && part == e.title->0@ {
        assert(t[0] == part);
        0
    } else if part.len() > 0 && e.description is Some && part == e.description->0@ {
        assert(d[0] == part);
        t.len() as int
    } else {
        let i = choose|i: int|
            0 <= i < e.fields@.len() && part == (#[trigger] e.fields@[i]).name@ + " : "@
                + e.fields@[i].value@;
        assert(fs[i] == part);
        t.len() + d.len() + i
    };
    assert(parts[k] == part);
    crate::text::law_joined_holds_each(parts, "\n\n"@, k)
}

/// Who has a global name is shown under it, and who has none under the user
/// name.
pub proof fn law_shown_name(global_name: Option<String>, username: String)
    ensures
        global_name is Some ==> shown(global_name, username) == global_name->0@,
        global_name is None ==> shown(global_name, username) == username@,
{
}

/// Each status without success means one thing: 401, 403, 404 and 429 have their
/// own errors, and every other one is told with its body.
pub proof fn law_meaning_of_statuses(status: u16, body: Seq<char>, retry_after_ms: u64)
    ensures
        failure(status, body, retry_after_ms) is Unauthorized <==> status == 401,
        failure(status, body, retry_after_ms) is Forbidden <==> status == 403,
        failure(status, body, retry_after_ms) is NotFound <==> status == 404,
        failure(status, body, retry_after_ms) is RateLimited <==> status == 429,
        failure(status, body, retry_after_ms) is RateLimited ==> failure(
            status,
            body,
            retry_after_ms,
        )->retry_after_ms == retry_after_ms,
        !seq![401u16, 403, 404, 429].contains(status) ==> failure(status, body, retry_after_ms)
            == (ErrorModel::Http { status, body }),
        is_success(status) <==> status as int / 100 == 2,
{
    let s = seq![401u16, 403, 404, 429];
    assert(s[0] == 401 && s[1] == 403 && s[2] == 404 && s[3] == 429);
}

/// Between 1 and 100 messages are asked for: the number that was wanted, or the
/// nearest bound.
pub proof fn law_number_of_messages(limit: u32)
    ensures
        1 <= clamped(limit) <= 100,
        1 <= limit <= 100 ==> clamped(limit) == limit,
        limit < 1 ==> clamped(limit) == 1,
        limit > 100 ==> clamped(limit) == 100,
{
}

/// Letters, digits and the four marks `-`, `_`, `.` and `~` stand for
/// themselves, and no other byte does.
pub proof fn law_unreserved_bytes(b: u8)
    ensures
        is_unreserved(b) <==> ('A' <= b as char <= 'Z' || 'a' <= b as char <= 'z' || '0' <= b as char
            <= '9' || seq!['-', '_', '.', '~'].contains(b as char)),
        !is_unreserved(b) ==> percent_byte(b).len() == 3 && percent_byte(b)[0] == '%' && 16
            * hex_value(percent_byte(b)[1]) + hex_value(percent_byte(b)[2]) == b,
{
    let s = seq!['-', '_', '.', '~'];
    assert(s[0] == '-' && s[1] == '_' && s[2] == '.' && s[3] == '~');
}

/// What is said of each failed request.
pub proof fn law_words_of_failures(status: u16, ms: u64, a: Seq<char>)
    ensures
        error_text(ErrorModel::Unauthorized)
            == "Discord rejected the bot token (401). Check DISCORD_BOT_TOKEN."@,
        error_text(ErrorModel::Forbidden)
            == "Forbidden (403). Bot needs View Channel + Read Message History (fetch) and Add Reactions (auto-react)."@,
        error_text(ErrorModel::NotFound) == "Channel not found (404). Wrong channel ID?"@,
        error_text(ErrorModel::RateLimited { retry_after_ms: ms }) == "Rate limited. Retry in "@
            + crate::text::decimal(ms as nat) + "ms."@,
        error_text(ErrorModel::Http { status, body: a }) == "Discord HTTP "@ + crate::text::decimal(
            status as nat,
        ) + ": "@ + a,
        error_text(ErrorModel::Transport(a)) == "Network error: "@ + a,
        error_text(ErrorModel::Parse(a)) == "Failed to parse Discord response: "@ + a,
{
}

/// The fixed values of the interface.
pub proof fn law_fixed_values()
    ensures
        API_BASE@ == "https://discord.com/api/v10"@,
        USER_AGENT@ == "DiscordBot (https://github.com/extragornax/discord_to_insta, 0.1.0)"@,
        TIMEOUT_SECS == 30,
{
}

/// The model of an error holds all that the value holds, its texts as characters.
pub proof fn law_model_of_error(x: Error)
    ensures
        x@ == (match x {
            Error::Unauthorized => ErrorModel::Unauthorized,
            Error::Forbidden => ErrorModel::Forbidden,
            Error::NotFound => ErrorModel::NotFound,
            Error::RateLimited { retry_after_ms } => ErrorModel::RateLimited { retry_after_ms },
            Error::Http { status, body } => ErrorModel::Http { status, body: body@ },
            Error::Transport(e) => ErrorModel::Transport(e@),
            Error::Parse(e) => ErrorModel::Parse(e@),
        }),
{
}

} // verus!
