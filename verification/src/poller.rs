//! The auto-reactor: which messages get reactions, in which order, and what is
//! remembered after each step so that a run can be taken up again.

use vstd::prelude::*;

use crate::discord::Message;
use crate::json::opt_text;
use crate::state::{is_newer_snowflake, AppState};
use crate::text::{cat2, cat4, cat5};

verus! {

/// How many messages are fetched at a time.
pub const DEFAULT_FETCH_LIMIT: u32 = 50;

/// The pause between two fetches, in seconds.
pub const POLL_INTERVAL_SECS: u64 = 30;

/// The number of emojis placed on each message.
pub const EMOJI_COUNT: usize = 3;

/// The emojis placed on each message, in order.
pub open spec fn reaction_emojis() -> Seq<Seq<char>> {
    seq!["✅"@, "🚫"@, "🤔"@]
}

/// The emoji with the index `i`.
pub fn reaction_emoji(i: usize) -> (e: &'static str)
    requires
        i < EMOJI_COUNT,
    ensures
        e@ == reaction_emojis()[i as int],
{
    if i == 0 {
        "✅"
    } else if i == 1 {
        "🚫"
    } else {
        "🤔"
    }
}

/// The ids of messages.
pub open spec fn ids_of(messages: Seq<Message>) -> Seq<Seq<char>> {
    messages.map_values(|m: Message| m.id@)
}

/// The ids newer than `last`, from the last of `ids` to the first.
pub open spec fn fresh(ids: Seq<Seq<char>>, last: Seq<char>) -> Seq<Seq<char>>
    decreases ids.len(),
{
    if ids.len() == 0 {
        Seq::empty()
    } else {
        let rest = fresh(ids.drop_first(), last);
        if crate::state::newer(ids[0], last) {
            rest.push(ids[0])
        } else {
            rest
        }
    }
}

/// The messages newer than `last`, oldest first, where `messages` come newest
/// first.
pub fn new_messages(messages: &Vec<Message>, last: &str) -> (out: Vec<String>)
    ensures
        crate::strmap::texts(out@) == fresh(ids_of(messages@), last@),
{
    let ghost ids = ids_of(messages@);
    let mut out: Vec<String> = Vec::new();
    let mut i: usize = messages.len();
    assert(ids.skip(ids.len() as int) =~= Seq::<Seq<char>>::empty());
    assert(crate::strmap::texts(out@) =~= Seq::<Seq<char>>::empty());
    while i > 0
        invariant
            i <= messages.len(),
            ids == ids_of(messages@),
            crate::strmap::texts(out@) == fresh(ids.skip(i as int), last@),
        decreases i,
    {
        i -= 1;
        let ghost so_far = crate::strmap::texts(out@);
        assert(ids.skip(i as int).drop_first() == ids.skip(i + 1));
        assert(ids.skip(i as int)[0] == messages@[i as int].id@);
        if is_newer_snowflake(messages[i].id.as_str(), last) {
            out.push(messages[i].id.clone());
            assert(crate::strmap::texts(out@) =~= so_far.push(messages@[i as int].id@));
        }
    }
    assert(ids.skip(0) == ids);
    out
}

/// What one fetch leads to.
pub enum Cycle {
    /// There are no messages.
    Nothing,
    /// This is the first fetch: remember the newest message, react to none.
    Bootstrap { last_id: String },
    /// React to these messages, oldest first; there may be none.
    Batch { ids: Vec<String> },
}

/// What one fetch leads to, with texts as characters.
pub enum CycleModel {
    Nothing,
    Bootstrap { last_id: Seq<char> },
    Batch { ids: Seq<Seq<char>> },
}

impl View for Cycle {
    type V = CycleModel;

    open spec fn view(&self) -> CycleModel {
        match *self {
            Cycle::Nothing => CycleModel::Nothing,
            Cycle::Bootstrap { last_id } => CycleModel::Bootstrap { last_id: last_id@ },
            Cycle::Batch { ids } => CycleModel::Batch { ids: crate::strmap::texts(ids@) },
        }
    }
}

/// What a fetch of the messages `ids`, newest first, leads to, where `last` is
/// the newest message that was handled.
pub open spec fn cycle_for(ids: Seq<Seq<char>>, last: Option<Seq<char>>) -> CycleModel {
    if ids.len() == 0 {
        CycleModel::Nothing
    } else {
        match last {
            None => CycleModel::Bootstrap { last_id: ids[0] },
            Some(id) => CycleModel::Batch { ids: fresh(ids, id) },
        }
    }
}

/// Decides what a fetch leads to.
pub fn plan(messages: &Vec<Message>, last_seen: &Option<String>) -> (out: Cycle)
    ensures
        out@ == cycle_for(ids_of(messages@), opt_text(*last_seen)),
{
    if messages.len() == 0 {
        return Cycle::Nothing;
    }
    match last_seen {
        None => Cycle::Bootstrap { last_id: messages[0].id.clone() },
        Some(last) => Cycle::Batch { ids: new_messages(messages, last.as_str()) },
    }
}

/// What the auto-reactor tells.
pub enum PollerEvent {
    Bootstrap { last_id: String },
    Reacted { message_id: String, emoji: String },
    NoNewMessages,
    Error(String),
    Stopped,
}

/// What the auto-reactor tells, with texts as characters.
pub enum PollerEventModel {
    Bootstrap { last_id: Seq<char> },
    Reacted { message_id: Seq<char>, emoji: Seq<char> },
    NoNewMessages,
    Error(Seq<char>),
    Stopped,
}

impl View for PollerEvent {
    type V = PollerEventModel;

    open spec fn view(&self) -> PollerEventModel {
        match *self {
            PollerEvent::Bootstrap { last_id } => PollerEventModel::Bootstrap { last_id: last_id@ },
            PollerEvent::Reacted { message_id, emoji } => PollerEventModel::Reacted {
                message_id: message_id@,
                emoji: emoji@,
            },
            PollerEvent::NoNewMessages => PollerEventModel::NoNewMessages,
            PollerEvent::Error(e) => PollerEventModel::Error(e@),
            PollerEvent::Stopped => PollerEventModel::Stopped,
        }
    }
}

/// What is told before the messages `ids` are handled: that there are none, if
/// so.
pub open spec fn batch_told(ids: Seq<Seq<char>>) -> Option<PollerEventModel> {
    if ids.len() == 0 {
        Some(PollerEventModel::NoNewMessages)
    } else {
        None
    }
}

/// What is told before a batch is handled.
pub fn batch_event(ids: &Vec<String>) -> (out: Option<PollerEvent>)
    ensures
        match out {
            Some(e) => batch_told(crate::strmap::texts(ids@)) == Some(e@),
            None => batch_told(crate::strmap::texts(ids@)) is None,
        },
{
    if ids.len() == 0 {
        Some(PollerEvent::NoNewMessages)
    } else {
        None
    }
}

/// Remembers the newest message on the first fetch.
pub fn bootstrap(state: &mut AppState, channel: &str, last_id: &str)
    ensures
        final(state).last_reacted() == old(state).last_reacted().insert(channel@, last_id@),
        final(state).placed() == old(state).placed(),
        final(state).last_weekly_poll == old(state).last_weekly_poll,
{
    state.set_last_seen(channel, last_id);
}

/// What is told after the first fetch.
pub open spec fn bootstrap_told(
    last_id: Seq<char>,
    path: Seq<char>,
    error: Option<Seq<char>>,
) -> PollerEventModel {
    match error {
        Some(e) => PollerEventModel::Error("failed to write state "@ + path + ": "@ + e),
        None => PollerEventModel::Bootstrap { last_id },
    }
}

/// What is told after the first fetch, where `error` says why its newest
/// message could not be saved to `path`, if it could not.
pub fn bootstrap_event(last_id: &str, path: &str, error: &Option<String>) -> (out: PollerEvent)
    ensures
        out@ == bootstrap_told(last_id@, path@, opt_text(*error)),
{
    match error {
        Some(e) => PollerEvent::Error(cat4("failed to write state ", path, ": ", e.as_str())),
        None => PollerEvent::Bootstrap { last_id: last_id.to_string() },
    }
}

/// What is told when the state could not be saved between messages.
pub fn save_error(error: &str) -> (out: PollerEvent)
    ensures
        out@ == PollerEventModel::Error("failed to write state: "@ + error@),
{
    PollerEvent::Error(cat2("failed to write state: ", error))
}

/// The index of the first emoji from `i` on that is not on the message yet, or
/// the number of emojis where all are.
pub open spec fn next_emoji(
    placed: crate::state::Placed,
    channel: Seq<char>,
    message: Seq<char>,
    i: int,
) -> int
    decreases EMOJI_COUNT - i,
{
    if i < 0 || i >= EMOJI_COUNT {
        EMOJI_COUNT as int
    } else if crate::state::is_placed(placed, channel, message, reaction_emojis()[i]) {
        next_emoji(placed, channel, message, i + 1)
    } else {
        i
    }
}

/// What to do next about a batch.
pub enum Step {
    /// Place this emoji on this message.
    React { message_id: String, emoji: String },
    /// All emojis are on this message.
    Advance { message_id: String },
    /// Nothing is left to do.
    Done,
}

/// What to do next about a batch, with texts as characters.
pub enum StepModel {
    React { message_id: Seq<char>, emoji: Seq<char> },
    Advance { message_id: Seq<char> },
    Done,
}

impl View for Step {
    type V = StepModel;

    open spec fn view(&self) -> StepModel {
        match *self {
            Step::React { message_id, emoji } => StepModel::React {
                message_id: message_id@,
                emoji: emoji@,
            },
            Step::Advance { message_id } => StepModel::Advance { message_id: message_id@ },
            Step::Done => StepModel::Done,
        }
    }
}

/// What to do next about the messages `ids` of a channel.
pub open spec fn step_for(
    placed: crate::state::Placed,
    channel: Seq<char>,
    ids: Seq<Seq<char>>,
) -> StepModel {
    if ids.len() == 0 {
        StepModel::Done
    } else {
        let i = next_emoji(placed, channel, ids[0], 0);
        if i < EMOJI_COUNT {
            StepModel::React { message_id: ids[0], emoji: reaction_emojis()[i] }
        } else {
            StepModel::Advance { message_id: ids[0] }
        }
    }
}

/// A batch of messages, of which those from `next` on are still to be handled.
pub struct Batch {
    channel: String,
    ids: Vec<String>,
    next: usize,
}

impl Batch {
    #[verifier::type_invariant]
    closed spec fn wf(self) -> bool {
        self.next <= self.ids.len()
    }

    /// The channel of the messages.
    pub closed spec fn channel(self) -> Seq<char> {
        self.channel@
    }

    /// The messages still to be handled, oldest first.
    pub closed spec fn pending(self) -> Seq<Seq<char>> {
        crate::strmap::texts(self.ids@).skip(self.next as int)
    }

    /// A batch of which nothing is handled.
    pub fn new(channel: &str, ids: Vec<String>) -> (b: Batch)
        ensures
            b.channel() == channel@,
            b.pending() == crate::strmap::texts(ids@),
    {
        let b = Batch { channel: channel.to_string(), ids, next: 0 };
        assert(b.pending() =~= crate::strmap::texts(ids@));
        b
    }

    /// Decides what to do next, given what was placed before.
    pub fn step(&self, state: &AppState) -> (out: Step)
        ensures
            out@ == step_for(state.placed(), self.channel(), self.pending()),
    {
        proof {
            use_type_invariant(self);
        }
        if self.next >= self.ids.len() {
            return Step::Done;
        }
        let id = self.ids[self.next].clone();
        assert(self.pending()[0] == id@);
        let mut i: usize = 0;
        while i < EMOJI_COUNT && state.has_reacted(
            self.channel.as_str(),
            id.as_str(),
            reaction_emoji(i),
        )
            invariant
                i <= EMOJI_COUNT,
                next_emoji(state.placed(), self.channel(), id@, 0) == next_emoji(
                    state.placed(),
                    self.channel(),
                    id@,
                    i as int,
                ),
            decreases EMOJI_COUNT - i,
        {
            i += 1;
        }
        if i < EMOJI_COUNT {
            Step::React { message_id: id, emoji: reaction_emoji(i).to_string() }
        } else {
            Step::Advance { message_id: id }
        }
    }

    /// Takes in how placing an emoji went. A placed one is remembered; an error
    /// ends the batch, so that the next fetch takes it up from the same message.
    pub fn reacted(
        &mut self,
        state: &mut AppState,
        message_id: &str,
        emoji: &str,
        error: &Option<String>,
    ) -> (out: PollerEvent)
        ensures
            final(self).channel() == old(self).channel(),
            match opt_text(*error) {
                None => {
                    &&& out@ == (PollerEventModel::Reacted {
                        message_id: message_id@,
                        emoji: emoji@,
                    })
                    &&& final(self).pending() == old(self).pending()
                    &&& final(state).placed() == crate::state::with_placed(
                        old(state).placed(),
                        old(self).channel(),
                        message_id@,
                        emoji@,
                    )
                },
                Some(e) => {
                    &&& out@ == PollerEventModel::Error(
                        emoji@ + " on "@ + message_id@ + ": "@ + e,
                    )
                    &&& final(self).pending() == Seq::<Seq<char>>::empty()
                    &&& final(state).placed() == old(state).placed()
                },
            },
            final(state).last_reacted() == old(state).last_reacted(),
            final(state).last_weekly_poll == old(state).last_weekly_poll,
    {
        match error {
            None => {
                state.record_reaction(self.channel.as_str(), message_id, emoji);
                PollerEvent::Reacted {
                    message_id: message_id.to_string(),
                    emoji: emoji.to_string(),
                }
            },
            Some(e) => {
                self.next = self.ids.len();
                assert(self.pending() =~= Seq::<Seq<char>>::empty());
                PollerEvent::Error(cat5(emoji, " on ", message_id, ": ", e.as_str()))
            },
        }
    }

    /// Moves past the first pending message: it becomes the newest that was
    /// handled, and what was placed on it is forgotten.
    pub fn advance(&mut self, state: &mut AppState)
        requires
            old(self).pending().len() > 0,
        ensures
            final(self).channel() == old(self).channel(),
            final(self).pending() == old(self).pending().drop_first(),
            final(state).last_reacted() == old(state).last_reacted().insert(
                old(self).channel(),
                old(self).pending()[0],
            ),
            final(state).placed() == crate::state::without_message(
                old(state).placed(),
                old(self).channel(),
                old(self).pending()[0],
            ),
            final(state).last_weekly_poll == old(state).last_weekly_poll,
    {
        proof {
            use_type_invariant(&*self);
        }
        let ghost before = self.pending();
        let id = self.ids[self.next].clone();
        assert(before[0] == id@);
        state.set_last_seen(self.channel.as_str(), id.as_str());
        state.clear_reactions(self.channel.as_str(), id.as_str());
        self.next = self.next + 1;
        assert(self.pending() =~= before.drop_first());
    }
}

/// The ids are in falling order, as a channel lists its messages.
pub open spec fn newest_first(ids: Seq<Seq<char>>) -> bool {
    forall|i: int, j: int|
        0 <= i < j < ids.len() ==> crate::state::newer(#[trigger] ids[i], #[trigger] ids[j])
}

/// The ids are in rising order, and all newer than `last`.
pub open spec fn oldest_first_after(ids: Seq<Seq<char>>, last: Seq<char>) -> bool {
    &&& forall|i: int| 0 <= i < ids.len() ==> crate::state::newer(#[trigger] ids[i], last)
    &&& forall|i: int, j: int|
        0 <= i < j < ids.len() ==> crate::state::newer(#[trigger] ids[j], #[trigger] ids[i])
}

/// A batch holds exactly the messages newer than the last one handled, each
/// time the oldest of them first, so that the newest handled message only ever
/// rises.
pub proof fn law_batch_rises(ids: Seq<Seq<char>>, last: Seq<char>)
    requires
        newest_first(ids),
    ensures
        oldest_first_after(fresh(ids, last), last),
        forall|x: Seq<char>| #[trigger]
            fresh(ids, last).contains(x) <==> ids.contains(x) && crate::state::newer(x, last),
    decreases ids.len(),
{
    if ids.len() > 0 {
        let rest = ids.drop_first();
        assert(newest_first(rest)) by {
            assert forall|i: int, j: int| 0 <= i < j < rest.len() implies crate::state::newer(
                #[trigger] rest[i],
                #[trigger] rest[j],
            ) by {
                assert(rest[i] == ids[i + 1] && rest[j] == ids[j + 1]);
            }
        }
        law_batch_rises(rest, last);
        let f = fresh(rest, last);
        let g = fresh(ids, last);
        if crate::state::newer(ids[0], last) {
            assert forall|i: int, j: int| 0 <= i < j < g.len() implies crate::state::newer(
                #[trigger] g[j],
                #[trigger] g[i],
            ) by {
                assert(g[i] == f[i]);
                if j < f.len() {
                    assert(g[j] == f[j]);
                } else {
                    assert(f.contains(f[i]));
                    let k = choose|k: int| 0 <= k < rest.len() && rest[k] == f[i];
                    assert(rest[k] == ids[k + 1]);
                }
            }
            assert forall|i: int| 0 <= i < g.len() implies crate::state::newer(
                #[trigger] g[i],
                last,
            ) by {
                if i < f.len() {
                    assert(g[i] == f[i]);
                }
            }
        }
        assert forall|x: Seq<char>| #[trigger]
            g.contains(x) <==> ids.contains(x) && crate::state::newer(x, last) by {
            assert(f.contains(x) <==> rest.contains(x) && crate::state::newer(x, last));
            if rest.contains(x) {
                let k = choose|k: int| 0 <= k < rest.len() && rest[k] == x;
                assert(ids[k + 1] == x);
            }
            if ids.contains(x) {
                let k = choose|k: int| 0 <= k < ids.len() && ids[k] == x;
                if k > 0 {
                    assert(rest[k - 1] == x);
                }
            }
            if g != f {
                assert(g[f.len() as int] == ids[0]);
                if f.contains(x) {
                    let k = choose|k: int| 0 <= k < f.len() && f[k] == x;
                    assert(g[k] == x);
                }
                if g.contains(x) {
                    let k = choose|k: int| 0 <= k < g.len() && g[k] == x;
                    if k < f.len() {
                        assert(f[k] == x);
                    } else {
                        assert(ids[0] == x);
                    }
                }
            }
        }
    }
}

/// The first fetch reacts to nothing and remembers the newest message.
pub proof fn law_no_retroactive_reactions(ids: Seq<Seq<char>>)
    requires
        ids.len() > 0,
    ensures
        cycle_for(ids, None) == (CycleModel::Bootstrap { last_id: ids[0] }),
{
}

/// After the first fetch, fetching the same messages again leads to nothing new.
pub proof fn law_bootstrap_then_quiet(ids: Seq<Seq<char>>)
    requires
        newest_first(ids),
        ids.len() > 0,
    ensures
        cycle_for(ids, Some(ids[0])) == (CycleModel::Batch { ids: Seq::empty() }),
{
    let f = fresh(ids, ids[0]);
    law_batch_rises(ids, ids[0]);
    if f.len() > 0 {
        assert(f.contains(f[0]));
        let k = choose|k: int| 0 <= k < ids.len() && ids[k] == f[0];
        crate::state::law_newer_is_a_strict_order(ids[0], ids[k], ids[0]);
        if k > 0 {
            assert(crate::state::newer(ids[0], ids[k]));
        }
    }
    assert(f =~= Seq::<Seq<char>>::empty());
}

/// A batch that was cut short is taken up where it ended: once some of its
/// messages are handled, the messages newer than the last of them are the rest
/// of the batch.
pub proof fn law_cut_batch_resumes(ids: Seq<Seq<char>>, last: Seq<char>, j: int)
    requires
        newest_first(ids),
        0 <= j < fresh(ids, last).len(),
    ensures
        fresh(ids, fresh(ids, last)[j]) == fresh(ids, last).skip(j + 1),
    decreases ids.len(),
{
    if ids.len() > 0 {
        let rest = ids.drop_first();
        assert(newest_first(rest)) by {
            assert forall|i: int, k: int| 0 <= i < k < rest.len() implies crate::state::newer(
                #[trigger] rest[i],
                #[trigger] rest[k],
            ) by {
                assert(rest[i] == ids[i + 1] && rest[k] == ids[k + 1]);
            }
        }
        law_batch_rises(rest, last);
        let f = fresh(rest, last);
        let b = fresh(ids, last);
        if j < f.len() {
            assert(f.contains(f[j]));
            let k = choose|k: int| 0 <= k < rest.len() && rest[k] == f[j];
            assert(rest[k] == ids[k + 1]);
            assert(crate::state::newer(ids[0], f[j]));
            crate::state::law_newer_is_a_strict_order(ids[0], f[j], last);
            law_cut_batch_resumes(rest, last, j);
            assert(b == f.push(ids[0]));
            assert(b.skip(j + 1) =~= f.skip(j + 1).push(ids[0]));
        } else {
            assert(b[j] == ids[0]);
            law_bootstrap_then_quiet(ids);
            assert(b.skip(j + 1) =~= Seq::<Seq<char>>::empty());
        }
    }
}

/// The emojis still to be placed on a message, in order, from the index `i` on.
pub open spec fn missing(
    placed: crate::state::Placed,
    channel: Seq<char>,
    message: Seq<char>,
    i: int,
) -> Seq<(Seq<char>, Seq<char>)>
    decreases EMOJI_COUNT - i,
{
    if i < 0 || i >= EMOJI_COUNT {
        Seq::empty()
    } else {
        let rest = missing(placed, channel, message, i + 1);
        if crate::state::is_placed(placed, channel, message, reaction_emojis()[i]) {
            rest
        } else {
            seq![(message, reaction_emojis()[i])] + rest
        }
    }
}

/// The reactions still to be placed on the messages `ids`, in order.
pub open spec fn todo(placed: crate::state::Placed, channel: Seq<char>, ids: Seq<Seq<char>>) -> Seq<
    (Seq<char>, Seq<char>),
>
    decreases ids.len(),
{
    if ids.len() == 0 {
        Seq::empty()
    } else {
        missing(placed, channel, ids[0], 0) + todo(placed, channel, ids.drop_first())
    }
}

proof fn lemma_emojis_differ()
    ensures
        reaction_emojis().len() == EMOJI_COUNT,
        reaction_emojis().no_duplicates(),
{
    reveal_strlit("✅");
    reveal_strlit("🚫");
    reveal_strlit("🤔");
    assert("✅"@[0] == '✅');
    assert("🚫"@[0] == '🚫');
    assert("🤔"@[0] == '🤔');
}

proof fn lemma_missing(
    placed: crate::state::Placed,
    channel: Seq<char>,
    message: Seq<char>,
    i: int,
    k: int,
)
    requires
        0 <= i <= EMOJI_COUNT,
        k == next_emoji(placed, channel, message, i),
    ensures
        i <= k <= EMOJI_COUNT,
        k == EMOJI_COUNT ==> missing(placed, channel, message, i) == Seq::<
            (Seq<char>, Seq<char>),
        >::empty(),
        k < EMOJI_COUNT ==> missing(placed, channel, message, i) == seq![
            (message, reaction_emojis()[k]),
        ] + missing(placed, channel, message, k + 1) && !crate::state::is_placed(
            placed,
            channel,
            message,
            reaction_emojis()[k],
        ),
    decreases EMOJI_COUNT - i,
{
    if i < EMOJI_COUNT && crate::state::is_placed(placed, channel, message, reaction_emojis()[i]) {
        lemma_missing(placed, channel, message, i + 1, k);
    }
}

proof fn lemma_missing_after(
    placed: crate::state::Placed,
    channel: Seq<char>,
    message: Seq<char>,
    k: int,
    i: int,
)
    requires
        0 <= k < i <= EMOJI_COUNT,
    ensures
        missing(
            crate::state::with_placed(placed, channel, message, reaction_emojis()[k]),
            channel,
            message,
            i,
        ) == missing(placed, channel, message, i),
    decreases EMOJI_COUNT - i,
{
    lemma_emojis_differ();
    if i < EMOJI_COUNT {
        lemma_missing_after(placed, channel, message, k, i + 1);
        crate::state::law_recorded_is_placed(
            placed,
            channel,
            message,
            reaction_emojis()[k],
            channel,
            message,
            reaction_emojis()[i],
        );
    }
}

proof fn lemma_missing_same(
    p: crate::state::Placed,
    q: crate::state::Placed,
    channel: Seq<char>,
    message: Seq<char>,
    i: int,
)
    requires
        0 <= i <= EMOJI_COUNT,
        forall|e: Seq<char>| #[trigger]
            crate::state::is_placed(p, channel, message, e) == crate::state::is_placed(
                q,
                channel,
                message,
                e,
            ),
    ensures
        missing(p, channel, message, i) == missing(q, channel, message, i),
    decreases EMOJI_COUNT - i,
{
    if i < EMOJI_COUNT {
        lemma_missing_same(p, q, channel, message, i + 1);
    }
}

proof fn lemma_todo_same(
    p: crate::state::Placed,
    q: crate::state::Placed,
    channel: Seq<char>,
    ids: Seq<Seq<char>>,
)
    requires
        forall|m: Seq<char>, e: Seq<char>|
            ids.contains(m) ==> #[trigger] crate::state::is_placed(p, channel, m, e)
                == crate::state::is_placed(q, channel, m, e),
    ensures
        todo(p, channel, ids) == todo(q, channel, ids),
    decreases ids.len(),
{
    if ids.len() > 0 {
        assert(ids.contains(ids[0]));
        lemma_missing_same(p, q, channel, ids[0], 0);
        let rest = ids.drop_first();
        assert forall|m: Seq<char>, e: Seq<char>|
            rest.contains(m) implies #[trigger] crate::state::is_placed(p, channel, m, e)
            == crate::state::is_placed(q, channel, m, e) by {
            let k = choose|k: int| 0 <= k < rest.len() && rest[k] == m;
            assert(ids[k + 1] == m);
        }
        lemma_todo_same(p, q, channel, rest);
    }
}

/// The reactions of a batch go out message by message and in the fixed order of
/// the emojis, each once: a step places the first reaction that is still to be
/// placed, and after it that one is no longer to be placed.
pub proof fn law_reactions_in_order(
    placed: crate::state::Placed,
    channel: Seq<char>,
    ids: Seq<Seq<char>>,
)
    requires
        ids.no_duplicates(),
    ensures
        match step_for(placed, channel, ids) {
            StepModel::React { message_id, emoji } => todo(placed, channel, ids) == seq![
                (message_id, emoji),
            ] + todo(
                crate::state::with_placed(placed, channel, message_id, emoji),
                channel,
                ids,
            ),
            StepModel::Advance { message_id } => todo(placed, channel, ids) == todo(
                crate::state::without_message(placed, channel, message_id),
                channel,
                ids.drop_first(),
            ),
            StepModel::Done => todo(placed, channel, ids).len() == 0,
        },
{
    if ids.len() > 0 {
        let m = ids[0];
        let rest = ids.drop_first();
        let k = next_emoji(placed, channel, m, 0);
        lemma_missing(placed, channel, m, 0, k);
        if rest.contains(m) {
            let j = choose|j: int| 0 <= j < rest.len() && rest[j] == m;
            assert(ids[j + 1] == m);
        }
        if k < EMOJI_COUNT {
            let e = reaction_emojis()[k];
            let q = crate::state::with_placed(placed, channel, m, e);
            lemma_missing_after(placed, channel, m, k, k + 1);
            lemma_placed_skips(placed, channel, m, 0, k);
            assert forall|x: Seq<char>, y: Seq<char>|
                rest.contains(x) implies #[trigger] crate::state::is_placed(placed, channel, x, y)
                == crate::state::is_placed(q, channel, x, y) by {
                crate::state::law_recorded_is_placed(placed, channel, m, e, channel, x, y);
            }
            lemma_todo_same(placed, q, channel, rest);
            assert(todo(placed, channel, ids) =~= seq![(m, e)] + todo(q, channel, ids));
        } else {
            let q = crate::state::without_message(placed, channel, m);
            assert forall|x: Seq<char>, y: Seq<char>|
                rest.contains(x) implies #[trigger] crate::state::is_placed(placed, channel, x, y)
                == crate::state::is_placed(q, channel, x, y) by {
                crate::state::law_cleared_is_forgotten(placed, channel, m, channel, x, y);
            }
            lemma_todo_same(placed, q, channel, rest);
            assert(todo(placed, channel, ids) =~= todo(placed, channel, rest));
        }
    }
}

proof fn lemma_placed_skips(
    placed: crate::state::Placed,
    channel: Seq<char>,
    message: Seq<char>,
    i: int,
    k: int,
)
    requires
        0 <= i <= k < EMOJI_COUNT,
        k == next_emoji(placed, channel, message, i),
    ensures
        missing(
            crate::state::with_placed(placed, channel, message, reaction_emojis()[k]),
            channel,
            message,
            i,
        ) == missing(
            crate::state::with_placed(placed, channel, message, reaction_emojis()[k]),
            channel,
            message,
            k + 1,
        ),
    decreases k - i,
{
    let e = reaction_emojis()[k];
    let f = reaction_emojis()[i];
    crate::state::law_recorded_is_placed(placed, channel, message, e, channel, message, f);
    if i < k {
        lemma_missing(placed, channel, message, i, k);
        lemma_placed_skips(placed, channel, message, i + 1, k);
    }
}

/// A message on which nothing was placed gets all the emojis, in their order.
pub proof fn law_fresh_message_gets_all(
    placed: crate::state::Placed,
    channel: Seq<char>,
    message: Seq<char>,
)
    requires
        forall|e: Seq<char>| !#[trigger] crate::state::is_placed(placed, channel, message, e),
    ensures
        missing(placed, channel, message, 0) == seq![
            (message, "✅"@),
            (message, "🚫"@),
            (message, "🤔"@),
        ],
{
    reveal_with_fuel(missing, 4);
    assert(missing(placed, channel, message, 0) =~= seq![
        (message, "✅"@),
        (message, "🚫"@),
        (message, "🤔"@),
    ]);
}

/// The messages to react to are all those newer than the last handled one, from
/// the end of the list to its beginning, however the list is ordered.
pub proof fn law_fresh_from_the_end(ids: Seq<Seq<char>>, id: Seq<char>, last: Seq<char>)
    ensures
        fresh(Seq::<Seq<char>>::empty(), last) == Seq::<Seq<char>>::empty(),
        fresh(ids.push(id), last) == (if crate::state::newer(id, last) {
            seq![id]
        } else {
            Seq::empty()
        }) + fresh(ids, last),
    decreases ids.len(),
{
    let all = ids.push(id);
    if ids.len() == 0 {
        assert(all.drop_first() =~= ids);
        assert(all[0] == id);
        assert(fresh(all, last) =~= (if crate::state::newer(id, last) {
            seq![id]
        } else {
            Seq::empty()
        }) + fresh(ids, last));
    } else {
        let rest = ids.drop_first();
        law_fresh_from_the_end(rest, id, last);
        assert(all.drop_first() =~= rest.push(id));
        assert(all[0] == ids[0]);
        assert(fresh(all, last) =~= (if crate::state::newer(id, last) {
            seq![id]
        } else {
            Seq::empty()
        }) + fresh(ids, last));
    }
}

/// What a fetch leads to: nothing where there are no messages; where none was
/// handled before, remembering the first of the list; else reacting to the newer
/// ones.
pub proof fn law_what_a_fetch_leads_to(ids: Seq<Seq<char>>, last: Option<Seq<char>>)
    ensures
        ids.len() == 0 ==> cycle_for(ids, last) == CycleModel::Nothing,
        ids.len() > 0 && last is None ==> cycle_for(ids, last) == (CycleModel::Bootstrap {
            last_id: ids[0],
        }),
        ids.len() > 0 && last is Some ==> cycle_for(ids, last) == (CycleModel::Batch {
            ids: fresh(ids, last->0),
        }),
        batch_told(ids) == (if ids.len() == 0 {
            Some(PollerEventModel::NoNewMessages)
        } else {
            None
        }),
{
}

/// The next step for the first message: the first of ✅, 🚫 and 🤔 that is not on
/// it yet is placed, and when all three are, it is done with.
pub proof fn law_next_step(
    placed: crate::state::Placed,
    channel: Seq<char>,
    ids: Seq<Seq<char>>,
)
    ensures
        ids.len() == 0 <==> step_for(placed, channel, ids) is Done,
        ids.len() > 0 ==> ({
            let yes = crate::state::is_placed(placed, channel, ids[0], "✅"@);
            let no = crate::state::is_placed(placed, channel, ids[0], "🚫"@);
            let maybe = crate::state::is_placed(placed, channel, ids[0], "🤔"@);
            step_for(placed, channel, ids) == if !yes {
                StepModel::React { message_id: ids[0], emoji: "✅"@ }
            } else if !no {
                StepModel::React { message_id: ids[0], emoji: "🚫"@ }
            } else if !maybe {
                StepModel::React { message_id: ids[0], emoji: "🤔"@ }
            } else {
                StepModel::Advance { message_id: ids[0] }
            }
        }),
{
    reveal_with_fuel(next_emoji, 4);
}

/// What is told after the first fetch: the message that was remembered, or that
/// it could not be saved, where and why.
pub proof fn law_words_after_the_first_fetch(id: Seq<char>, path: Seq<char>, e: Seq<char>)
    ensures
        bootstrap_told(id, path, None) == (PollerEventModel::Bootstrap { last_id: id }),
        bootstrap_told(id, path, Some(e)) == PollerEventModel::Error(
            "failed to write state "@ + path + ": "@ + e,
        ),
{
}

/// The fixed values of the auto-reactor.
pub proof fn law_fixed_values()
    ensures
        DEFAULT_FETCH_LIMIT == 50,
        POLL_INTERVAL_SECS == 30,
        EMOJI_COUNT == 3,
        reaction_emojis() == seq!["✅"@, "🚫"@, "🤔"@],
{
}

/// The model of what a fetch leads to holds all that the value holds, its texts as characters.
pub proof fn law_model_of_cycle(x: Cycle)
    ensures
        x@ == (match x {
            Cycle::Nothing => CycleModel::Nothing,
            Cycle::Bootstrap { last_id } => CycleModel::Bootstrap { last_id: last_id@ },
            Cycle::Batch { ids } => CycleModel::Batch { ids: crate::strmap::texts(ids@) },
        }),
{
}

/// The model of what is told holds all that the value holds, its texts as characters.
pub proof fn law_model_of_poller_event(x: PollerEvent)
    ensures
        x@ == (match x {
            PollerEvent::Bootstrap { last_id } => PollerEventModel::Bootstrap { last_id: last_id@ },
            PollerEvent::Reacted { message_id, emoji } => PollerEventModel::Reacted {
                message_id: message_id@,
                emoji: emoji@,
            },
            PollerEvent::NoNewMessages => PollerEventModel::NoNewMessages,
            PollerEvent::Error(e) => PollerEventModel::Error(e@),
            PollerEvent::Stopped => PollerEventModel::Stopped,
        }),
{
}

/// The model of a step holds all that the value holds, its texts as characters.
pub proof fn law_model_of_step(x: Step)
    ensures
        x@ == (match x {
            Step::React { message_id, emoji } => StepModel::React {
                message_id: message_id@,
                emoji: emoji@,
            },
            Step::Advance { message_id } => StepModel::Advance { message_id: message_id@ },
            Step::Done => StepModel::Done,
        }),
{
}

/// The ids are those of the messages one for one, in their order.
pub proof fn law_ids_one_for_one(messages: Seq<Message>, i: int)
    ensures
        ids_of(messages).len() == messages.len(),
        0 <= i < messages.len() ==> ids_of(messages)[i] == messages[i].id@,
{
}

} // verus!
