//! Publishing on Instagram: the requests that are made, what their replies mean
//! and how long a media container is waited for.

use vstd::prelude::*;

use crate::discord::success;
use crate::gateway::or_text;
use crate::json::opt_text;
use crate::text::{cat2, cat3, cat4, cat5, print_u64, same};

verus! {

/// Where the interface is reached.
pub const API_BASE: &'static str = "https://graph.facebook.com/v21.0";

/// How often the state of a container is asked for.
pub const CONTAINER_POLL_ATTEMPTS: u32 = 20;

/// The pause between two such questions, in seconds.
pub const CONTAINER_POLL_INTERVAL_SECS: u64 = 3;

/// How long a request may take, in seconds.
pub const TIMEOUT_SECS: u64 = 30;

/// Why publishing failed.
#[derive(Debug)]
#[allow(inconsistent_fields)]
pub enum Error {
    /// The network failed.
    Transport(String),
    /// The reply was none of success.
    Http { status: u16, body: String },
    /// The reply held an error message.
    Api { message: String },
    /// The container was never finished.
    ContainerStuck { status_code: String, status: String },
    /// The reply could not be parsed.
    Parse(String),
}

/// Why publishing failed, with texts as characters.
#[allow(inconsistent_fields)]
pub enum ErrorModel {
    Transport(Seq<char>),
    Http { status: u16, body: Seq<char> },
    Api { message: Seq<char> },
    ContainerStuck { status_code: Seq<char>, status: Seq<char> },
    Parse(Seq<char>),
}

impl View for Error {
    type V = ErrorModel;

    open spec fn view(&self) -> ErrorModel {
        match *self {
            Error::Transport(e) => ErrorModel::Transport(e@),
            Error::Http { status, body } => ErrorModel::Http { status, body: body@ },
            Error::Api { message } => ErrorModel::Api { message: message@ },
            Error::ContainerStuck { status_code, status } => ErrorModel::ContainerStuck {
                status_code: status_code@,
                status: status@,
            },
            Error::Parse(e) => ErrorModel::Parse(e@),
        }
    }
}

/// What is said of a failure.
pub open spec fn error_text(e: ErrorModel) -> Seq<char> {
    match e {
        ErrorModel::Transport(e) => "Instagram network error: "@ + e,
        ErrorModel::Http { status, body } => "Instagram HTTP "@ + crate::text::decimal(
            status as nat,
        ) + ": "@ + body,
        ErrorModel::Api { message } => "Instagram API error: "@ + message,
        ErrorModel::ContainerStuck { status_code, status } =>
            "Instagram media container never reached FINISHED (last: "@ + status_code + " / "@
            + status
            + ") — the image URL may be unreachable from Meta's servers, or the caption may be rejected."@,
        ErrorModel::Parse(e) => "Instagram response parse error: "@ + e,
    }
}

impl Error {
    /// What is said of the failure.
    pub fn message(&self) -> (out: String)
        ensures
            out@ == error_text(self@),
    {
        match self {
            Error::Transport(e) => cat2("Instagram network error: ", e.as_str()),
            Error::Http { status, body } => cat4(
                "Instagram HTTP ",
                print_u64(*status as u64).as_str(),
                ": ",
                body.as_str(),
            ),
            Error::Api { message } => cat2("Instagram API error: ", message.as_str()),
            Error::ContainerStuck { status_code, status } => cat5(
                "Instagram media container never reached FINISHED (last: ",
                status_code.as_str(),
                " / ",
                status.as_str(),
                ") — the image URL may be unreachable from Meta's servers, or the caption may be rejected.",
            ),
            Error::Parse(e) => cat2("Instagram response parse error: ", e.as_str()),
        }
    }
}

/// Where a post or a container is found.
pub fn object_url(id: &str) -> (out: String)
    ensures
        out@ == API_BASE@ + "/"@ + id@,
{
    cat3(API_BASE, "/", id)
}

/// Where a user's containers are created.
pub fn media_url(ig_user_id: &str) -> (out: String)
    ensures
        out@ == API_BASE@ + "/"@ + ig_user_id@ + "/media"@,
{
    cat4(API_BASE, "/", ig_user_id, "/media")
}

/// Where a user's containers are published.
pub fn publish_url(ig_user_id: &str) -> (out: String)
    ensures
        out@ == API_BASE@ + "/"@ + ig_user_id@ + "/media_publish"@,
{
    cat4(API_BASE, "/", ig_user_id, "/media_publish")
}

/// What a reply without success means, where `message` is the error message
/// that its body holds, if it does.
pub open spec fn failure(status: u16, body: Seq<char>, message: Option<Seq<char>>) -> ErrorModel {
    match message {
        Some(m) => ErrorModel::Api { message: m },
        None => ErrorModel::Http { status, body },
    }
}

/// The body of a reply of success; else the error, where `message` is the error
/// message that the body holds, if it does.
pub fn check_response(
    status: u16,
    body: String,
    message: &Option<String>,
) -> (r: Result<String, Error>)
    ensures
        match r {
            Ok(b) => crate::discord::is_success(status) && b@ == body@,
            Err(e) => !crate::discord::is_success(status) && e@ == failure(
                status,
                body@,
                opt_text(*message),
            ),
        },
{
    if success(status) {
        return Ok(body);
    }
    match message {
        Some(m) => Err(Error::Api { message: m.clone() }),
        None => Err(Error::Http { status, body }),
    }
}

/// A body that could not be parsed.
pub fn parse_error(reason: &str, body: &str) -> (e: Error)
    ensures
        e@ == ErrorModel::Parse(reason@ + " — body: "@ + body@),
{
    Error::Parse(cat3(reason, " — body: ", body))
}

/// A state of a container as it was read, with what is taken for missing parts.
pub struct Reading {
    pub status_code: String,
    pub status: String,
}

/// A state of a container with texts as characters.
pub struct ReadingModel {
    pub status_code: Seq<char>,
    pub status: Seq<char>,
}

impl View for Reading {
    type V = ReadingModel;

    open spec fn view(&self) -> ReadingModel {
        ReadingModel { status_code: self.status_code@, status: self.status@ }
    }
}

/// The state that a reply holds.
pub open spec fn reading(
    status_code: Option<Seq<char>>,
    status: Option<Seq<char>>,
) -> ReadingModel {
    ReadingModel {
        status_code: crate::gateway::text_or(status_code, "UNKNOWN"@),
        status: crate::gateway::text_or(status, ""@),
    }
}

/// What waiting for a container has come to.
pub enum Wait {
    /// The container is ready.
    Finished,
    /// It will not be ready.
    Stuck(Error),
    /// Pause, then ask again.
    Pause,
}

/// What waiting has come to, with texts as characters.
pub enum WaitModel {
    Finished,
    Stuck(ErrorModel),
    Pause,
}

impl View for Wait {
    type V = WaitModel;

    open spec fn view(&self) -> WaitModel {
        match *self {
            Wait::Finished => WaitModel::Finished,
            Wait::Stuck(e) => WaitModel::Stuck(e@),
            Wait::Pause => WaitModel::Pause,
        }
    }
}

/// The error for a container whose last state was `r`.
pub open spec fn stuck(r: ReadingModel) -> ErrorModel {
    ErrorModel::ContainerStuck { status_code: r.status_code, status: r.status }
}

/// Whether the state is final and bad.
pub open spec fn is_dead(status_code: Seq<char>) -> bool {
    status_code == "ERROR"@ || status_code == "EXPIRED"@
}

/// What waiting comes to on the state `r`, where `left` questions may still
/// follow.
pub open spec fn waiting(r: ReadingModel, left: int) -> WaitModel {
    if r.status_code == "FINISHED"@ {
        WaitModel::Finished
    } else if is_dead(r.status_code) || left <= 0 {
        WaitModel::Stuck(stuck(r))
    } else {
        WaitModel::Pause
    }
}

/// What waiting comes to over the states `rs` in order, before more arrive.
pub open spec fn waited(rs: Seq<ReadingModel>) -> WaitModel
    decreases rs.len(),
{
    if rs.len() == 0 {
        WaitModel::Pause
    } else {
        match waited(rs.drop_last()) {
            WaitModel::Pause => waiting(rs.last(), CONTAINER_POLL_ATTEMPTS - rs.len()),
            done => done,
        }
    }
}

/// The wait for one container.
pub struct ContainerWait {
    attempts: u32,
    history: Ghost<Seq<ReadingModel>>,
}

impl ContainerWait {
    #[verifier::type_invariant]
    closed spec fn wf(self) -> bool {
        &&& self.attempts == self.history@.len()
        &&& self.attempts <= CONTAINER_POLL_ATTEMPTS
    }

    /// The states seen so far.
    pub closed spec fn seen(self) -> Seq<ReadingModel> {
        self.history@
    }

    /// Nothing was asked yet.
    pub fn new() -> (w: ContainerWait)
        ensures
            w.seen() == Seq::<ReadingModel>::empty(),
    {
        ContainerWait { attempts: 0, history: Ghost(Seq::empty()) }
    }

    /// Takes in the state that a reply holds and says what the wait has come
    /// to. A container that is not finished in time counts as stuck.
    pub fn observe(&mut self, status_code: &Option<String>, status: &Option<String>) -> (out: Wait)
        requires
            waited(old(self).seen()) == WaitModel::Pause,
        ensures
            final(self).seen() == old(self).seen().push(
                reading(opt_text(*status_code), opt_text(*status)),
            ),
            out@ == waited(final(self).seen()),
    {
        proof {
            use_type_invariant(&*self);
            lemma_waits_no_longer(self.history@);
        }
        let code = or_text(status_code, "UNKNOWN");
        let text = or_text(status, "");
        let ghost r = reading(opt_text(*status_code), opt_text(*status));
        let ghost before = self.history@;
        assert(before.push(r).drop_last() =~= before);
        let attempts = self.attempts + 1;
        *self = ContainerWait { attempts, history: Ghost(before.push(r)) };
        if same(code.as_str(), "FINISHED") {
            Wait::Finished
        } else if same(code.as_str(), "ERROR") || same(code.as_str(), "EXPIRED") || attempts
            >= CONTAINER_POLL_ATTEMPTS {
            Wait::Stuck(Error::ContainerStuck { status_code: code, status: text })
        } else {
            Wait::Pause
        }
    }
}

proof fn lemma_waits_no_longer(rs: Seq<ReadingModel>)
    requires
        waited(rs) == WaitModel::Pause,
    ensures
        rs.len() < CONTAINER_POLL_ATTEMPTS,
{
}

/// A container is asked for at most the fixed number of times: by then the wait
/// has come to an end, whatever was read.
pub proof fn law_wait_ends(rs: Seq<ReadingModel>)
    requires
        rs.len() >= CONTAINER_POLL_ATTEMPTS,
    ensures
        waited(rs) != WaitModel::Pause,
{
}

/// The wait succeeds as soon as the container is finished, where it was still
/// in progress before and the questions were not used up.
pub proof fn law_finished_is_success(rs: Seq<ReadingModel>, r: ReadingModel)
    requires
        waited(rs) == WaitModel::Pause,
        r.status_code == "FINISHED"@,
    ensures
        waited(rs.push(r)) == WaitModel::Finished,
{
    assert(rs.push(r).drop_last() =~= rs);
}

/// Once the wait has come to an end, it stays as it ended.
pub proof fn law_end_of_wait_is_final(rs: Seq<ReadingModel>, r: ReadingModel)
    requires
        waited(rs) != WaitModel::Pause,
    ensures
        waited(rs.push(r)) == waited(rs),
{
    assert(rs.push(r).drop_last() =~= rs);
}

/// What one more state means for a wait that goes on: `FINISHED` ends it well,
/// `ERROR` and `EXPIRED` end it badly, and so does any other state that is the
/// twentieth; the error tells that state. Else the wait goes on.
pub proof fn law_one_more_state(rs: Seq<ReadingModel>, r: ReadingModel)
    requires
        waited(rs) == WaitModel::Pause,
    ensures
        waited(Seq::<ReadingModel>::empty()) == WaitModel::Pause,
        waited(rs.push(r)) is Finished <==> r.status_code == "FINISHED"@,
        waited(rs.push(r)) is Stuck <==> r.status_code != "FINISHED"@ && (r.status_code == "ERROR"@
            || r.status_code == "EXPIRED"@ || rs.len() >= 19),
        waited(rs.push(r)) is Stuck ==> waited(rs.push(r)) == WaitModel::Stuck(
            ErrorModel::ContainerStuck { status_code: r.status_code, status: r.status },
        ),
{
    assert(rs.push(r).drop_last() =~= rs);
}

/// A state is read as it stands in the reply; a missing code is unknown and a
/// missing text empty.
pub proof fn law_missing_parts_of_a_state(code: Option<Seq<char>>, status: Option<Seq<char>>)
    ensures
        code is Some ==> reading(code, status).status_code == code->0,
        code is None ==> reading(code, status).status_code == "UNKNOWN"@,
        status is Some ==> reading(code, status).status == status->0,
        status is None ==> reading(code, status).status.len() == 0,
{
    reveal_strlit("");
}

/// A refusal is told with its error message where the reply holds one, else with
/// its status and body.
pub proof fn law_refusals(status: u16, body: Seq<char>, message: Option<Seq<char>>)
    ensures
        message is Some ==> failure(status, body, message) == (ErrorModel::Api {
            message: message->0,
        }),
        message is None ==> failure(status, body, message) == (ErrorModel::Http { status, body }),
{
}

/// What is said of each failure.
pub proof fn law_words_of_failures(status: u16, a: Seq<char>, b: Seq<char>)
    ensures
        error_text(ErrorModel::Transport(a)) == "Instagram network error: "@ + a,
        error_text(ErrorModel::Http { status, body: a }) == "Instagram HTTP "@
            + crate::text::decimal(status as nat) + ": "@ + a,
        error_text(ErrorModel::Api { message: a }) == "Instagram API error: "@ + a,
        error_text(ErrorModel::ContainerStuck { status_code: a, status: b })
            == "Instagram media container never reached FINISHED (last: "@ + a + " / "@ + b
            + ") — the image URL may be unreachable from Meta's servers, or the caption may be rejected."@,
        error_text(ErrorModel::Parse(a)) == "Instagram response parse error: "@ + a,
{
}

/// The fixed values of the interface.
pub proof fn law_fixed_values()
    ensures
        API_BASE@ == "https://graph.facebook.com/v21.0"@,
        CONTAINER_POLL_ATTEMPTS == 20,
        CONTAINER_POLL_INTERVAL_SECS == 3,
        TIMEOUT_SECS == 30,
{
}

/// The model of a state holds all that the value holds, its texts as characters.
pub proof fn law_model_of_reading(x: Reading)
    ensures
        x@ == (ReadingModel { status_code: x.status_code@, status: x.status@ }),
{
}

/// The model of what a wait has come to holds all that the value holds, its texts as characters.
pub proof fn law_model_of_wait(x: Wait)
    ensures
        x@ == (match x {
            Wait::Finished => WaitModel::Finished,
            Wait::Stuck(e) => WaitModel::Stuck(e@),
            Wait::Pause => WaitModel::Pause,
        }),
{
}

/// The model of an error holds all that the value holds, its texts as characters.
pub proof fn law_model_of_error(x: Error)
    ensures
        x@ == (match x {
            Error::Transport(e) => ErrorModel::Transport(e@),
            Error::Http { status, body } => ErrorModel::Http { status, body: body@ },
            Error::Api { message } => ErrorModel::Api { message: message@ },
            Error::ContainerStuck { status_code, status } => ErrorModel::ContainerStuck {
                status_code: status_code@,
                status: status@,
            },
            Error::Parse(e) => ErrorModel::Parse(e@),
        }),
{
}

} // verus!
