//! Invite-link moderation: who is warned, when the operator is alerted and
//! which messages are deleted.
//!
//! Per user and invite code: in the first channel every message is answered
//! with a warning; from the second channel on the recorded messages are
//! deleted, and the operator is told once. A failed deletion is reported in the
//! channel where it failed, at most once per user.

use vstd::prelude::*;

use crate::gateway::{or_text, MessageEvent};
use crate::json::opt_text;
use crate::patterns::{all_groups, INVITE};
use crate::strmap::{texts, StrMap, StrSet};
use crate::text::{cat2, cat3, cat4, cat5, cat6, cat7, chars_of, less, same};

verus! {

/// The operator who is alerted to cross-channel invite spam.
pub const ALERT_USER_ID: &'static str = "222353499638202369";

/// The items of `s` without repetitions, in the order of first appearance.
pub open spec fn distinct(s: Seq<Seq<char>>) -> Seq<Seq<char>>
    decreases s.len(),
{
    if s.len() == 0 {
        s
    } else {
        let d = distinct(s.drop_last());
        if d.contains(s.last()) {
            d
        } else {
            d.push(s.last())
        }
    }
}

/// The invite codes of a message body.
pub open spec fn invite_codes(text: Seq<char>) -> Seq<Seq<char>> {
    distinct(
        crate::patterns::regex_matches(INVITE@, text).map_values(
            |m: (Seq<char>, Seq<char>, Seq<char>)| m.2,
        ),
    )
}

/// Drops every item that occurred before.
pub fn drop_repeats(items: Vec<String>) -> (out: Vec<String>)
    ensures
        texts(out@) == distinct(texts(items@)),
{
    let ghost all = texts(items@);
    let mut seen = StrSet::new();
    let mut out: Vec<String> = Vec::new();
    let mut i: usize = 0;
    assert(all.take(0) =~= Seq::<Seq<char>>::empty());
    assert(texts(out@) =~= distinct(all.take(0)));
    assert(texts(out@).to_set() =~= Set::<Seq<char>>::empty());
    while i < items.len()
        invariant
            i <= items.len(),
            all == texts(items@),
            texts(out@) == distinct(all.take(i as int)),
            seen@ == texts(out@).to_set(),
        decreases items.len() - i,
    {
        let item = items[i].clone();
        let ghost d = texts(out@);
        assert(all.take(i + 1).drop_last() == all.take(i as int));
        assert(all.take(i + 1).last() == item@);
        let fresh = seen.insert(item.clone());
        if fresh {
            out.push(item);
            assert(texts(out@) =~= d.push(item@));
            assert forall|x: Seq<char>| d.push(item@).contains(x) <==> d.contains(x) || x
                == item@ by {
                assert(d.push(item@)[d.len() as int] == item@);
                if d.contains(x) {
                    let j = choose|j: int| 0 <= j < d.len() && d[j] == x;
                    assert(d.push(item@)[j] == x);
                }
            }
            assert(texts(out@).to_set() =~= d.to_set().insert(item@));
        } else {
            assert(d.to_set().insert(item@) =~= d.to_set());
        }
        i += 1;
    }
    assert(all.take(i as int) == all);
    out
}

/// The distinct invite codes in a message body, in order of first appearance.
/// Codes that differ in case are different codes.
pub fn find_invite_codes(text: &str) -> (out: Vec<String>)
    ensures
        texts(out@) == invite_codes(text@),
{
    drop_repeats(all_groups(INVITE, text))
}

/// Each code is listed once, no code is lost and none is added.
pub proof fn law_distinct(s: Seq<Seq<char>>)
    ensures
        distinct(s).no_duplicates(),
        distinct(s).to_set() == s.to_set(),
        distinct(distinct(s)) == distinct(s),
    decreases s.len(),
{
    if s.len() > 0 {
        let t = s.drop_last();
        law_distinct(t);
        assert(s =~= t.push(s.last()));
        assert forall|x: Seq<char>| s.contains(x) <==> t.contains(x) || x == s.last() by {
            assert(s[s.len() - 1] == s.last());
            if t.contains(x) {
                let j = choose|j: int| 0 <= j < t.len() && t[j] == x;
                assert(s[j] == x);
            }
        }
        let d = distinct(t);
        assert forall|x: Seq<char>| d.contains(x) <==> t.contains(x) by {
            assert(d.to_set().contains(x) <==> t.to_set().contains(x));
        }
        let e = distinct(s);
        assert forall|x: Seq<char>| e.contains(x) <==> s.contains(x) by {
            if e != d {
                assert(e[d.len() as int] == s.last());
                if d.contains(x) {
                    let j = choose|j: int| 0 <= j < d.len() && d[j] == x;
                    assert(e[j] == x);
                }
            }
        }
        assert(e.to_set() =~= s.to_set());
        if e != d {
            assert(e.drop_last() =~= d);
        }
    }
}

/// A message that may hold invite links.
pub struct Suspect {
    pub channel_id: String,
    pub message_id: String,
    pub user_id: String,
    /// Empty where the text has to be fetched.
    pub content: String,
}

/// A message that may hold invite links, with texts as characters.
pub struct SuspectModel {
    pub channel_id: Seq<char>,
    pub message_id: Seq<char>,
    pub user_id: Seq<char>,
    pub content: Seq<char>,
}

impl View for Suspect {
    type V = SuspectModel;

    open spec fn view(&self) -> SuspectModel {
        SuspectModel {
            channel_id: self.channel_id@,
            message_id: self.message_id@,
            user_id: self.user_id@,
            content: self.content@,
        }
    }
}

/// What a new message gives cause to look into: one that no bot wrote, that can
/// be found again, and whose text is unknown or holds an invite link.
pub open spec fn suspected(e: crate::gateway::EventModel) -> Option<SuspectModel> {
    match (e.channel_id, e.id, e.author_id) {
        (Some(channel_id), Some(message_id), Some(user_id)) => {
            let content = crate::gateway::text_or(e.content, ""@);
            if e.author_bot != Some(true) && (content.len() == 0 || invite_codes(content).len()
                > 0) {
                Some(SuspectModel { channel_id, message_id, user_id, content })
            } else {
                None
            }
        },
        _ => None,
    }
}

/// Decides whether a new message gives cause to look into it.
pub fn inspect_create(e: &MessageEvent) -> (r: Option<Suspect>)
    ensures
        match r {
            Some(s) => suspected(e@) == Some(s@),
            None => suspected(e@) is None,
        },
{
    let is_bot = match e.author_bot {
        Some(b) => b,
        None => false,
    };
    if is_bot {
        return None;
    }
    match (&e.channel_id, &e.id, &e.author_id) {
        (Some(channel_id), Some(message_id), Some(user_id)) => {
            let content = or_text(&e.content, "");
            if !content.as_str().is_empty() {
                let codes = find_invite_codes(content.as_str());
                assert(texts(codes@).len() == codes@.len());
                if codes.is_empty() {
                    return None;
                }
            }
            Some(
                Suspect {
                    channel_id: channel_id.clone(),
                    message_id: message_id.clone(),
                    user_id: user_id.clone(),
                    content,
                },
            )
        },
        _ => None,
    }
}

/// Channel and message ids as character sequences.
pub open spec fn pairs(s: Seq<(String, String)>) -> Seq<(Seq<char>, Seq<char>)> {
    s.map_values(|p: (String, String)| (p.0@, p.1@))
}

/// What is known of one user and one invite code.
pub struct OffenseModel {
    /// The channels the code was posted in.
    pub channels: Set<Seq<char>>,
    /// The messages not yet handed to a deletion, as channel and message ids.
    pub messages: Seq<(Seq<char>, Seq<char>)>,
    /// Whether the operator was alerted.
    pub escalated: bool,
}

/// What is done about one invite code in one message.
pub enum ActionModel {
    Warn,
    Delete { messages: Seq<(Seq<char>, Seq<char>)>, dm: bool },
}

/// What is known before the first offense.
pub open spec fn clean() -> OffenseModel {
    OffenseModel { channels: Set::empty(), messages: Seq::empty(), escalated: false }
}

/// `o` with one more message seen.
pub open spec fn seen(o: OffenseModel, channel: Seq<char>, message: Seq<char>) -> OffenseModel {
    OffenseModel {
        channels: o.channels.insert(channel),
        messages: o.messages.push((channel, message)),
        escalated: o.escalated,
    }
}

/// What one more message makes of an offense.
pub open spec fn recorded(
    o: OffenseModel,
    channel: Seq<char>,
    message: Seq<char>,
) -> OffenseModel {
    let s = seen(o, channel, message);
    if s.channels.len() >= 2 {
        OffenseModel { channels: s.channels, messages: Seq::empty(), escalated: true }
    } else {
        s
    }
}

/// What is done about one more message of an offense.
pub open spec fn answer(o: OffenseModel, channel: Seq<char>, message: Seq<char>) -> ActionModel {
    let s = seen(o, channel, message);
    if s.channels.len() >= 2 {
        ActionModel::Delete { messages: s.messages, dm: !o.escalated }
    } else {
        ActionModel::Warn
    }
}

/// What is done about one invite code in one message.
#[derive(Debug, PartialEq)]
pub enum Action {
    /// The code was posted in one channel only so far: warn in the channel.
    Warn,
    /// The code was posted across channels: delete these messages, given as
    /// channel and message ids, and alert the operator where `dm` is set.
    Delete { messages: Vec<(String, String)>, dm: bool },
}

impl View for Action {
    type V = ActionModel;

    open spec fn view(&self) -> ActionModel {
        match *self {
            Action::Warn => ActionModel::Warn,
            Action::Delete { messages, dm } => ActionModel::Delete {
                messages: pairs(messages@),
                dm,
            },
        }
    }
}

struct Offense {
    channels: StrSet,
    messages: Vec<(String, String)>,
    escalated: bool,
}

impl Offense {
    spec fn model(self) -> OffenseModel {
        OffenseModel {
            channels: self.channels@,
            messages: pairs(self.messages@),
            escalated: self.escalated,
        }
    }
}

/// What the moderation remembers: an offense for each user and invite code that
/// were seen together, and the users for whom a failed deletion was reported.
pub struct TrackerModel {
    pub offenses: Map<(Seq<char>, Seq<char>), OffenseModel>,
    pub notified: Set<Seq<char>>,
}

impl TrackerModel {
    /// What is known of `user` and `code`.
    pub open spec fn offense(self, user: Seq<char>, code: Seq<char>) -> OffenseModel {
        if self.offenses.contains_key((user, code)) {
            self.offenses[(user, code)]
        } else {
            clean()
        }
    }

    /// The memory after one more message.
    pub open spec fn after(
        self,
        user: Seq<char>,
        code: Seq<char>,
        channel: Seq<char>,
        message: Seq<char>,
    ) -> TrackerModel {
        TrackerModel {
            offenses: self.offenses.insert(
                (user, code),
                recorded(self.offense(user, code), channel, message),
            ),
            notified: self.notified,
        }
    }
}

/// The memory of the moderation.
pub struct Tracker {
    offenses: StrMap<StrMap<Offense>>,
    notified: StrSet,
}

impl View for Tracker {
    type V = TrackerModel;

    closed spec fn view(&self) -> TrackerModel {
        TrackerModel {
            offenses: Map::new(
                |k: (Seq<char>, Seq<char>)|
                    self.offenses@.contains_key(k.0) && self.offenses@[k.0]@.contains_key(k.1),
                |k: (Seq<char>, Seq<char>)| self.offenses@[k.0]@[k.1].model(),
            ),
            notified: self.notified@,
        }
    }
}

impl Default for Tracker {
    fn default() -> (t: Self)
        ensures
            t@ == (TrackerModel { offenses: Map::empty(), notified: Set::empty() }),
    {
        let t = Tracker { offenses: StrMap::new(), notified: StrSet::new() };
        assert(t@.offenses =~= Map::<(Seq<char>, Seq<char>), OffenseModel>::empty());
        t
    }
}

impl Tracker {
    /// Records that `user_id` posted `code` in a message and says what to do
    /// about it.
    pub fn record(
        &mut self,
        user_id: &str,
        code: &str,
        channel_id: &str,
        message_id: &str,
    ) -> (action: Action)
        ensures
            final(self)@ == old(self)@.after(user_id@, code@, channel_id@, message_id@),
            action@ == answer(old(self)@.offense(user_id@, code@), channel_id@, message_id@),
    {
        let ghost before = *self;
        let ghost key = (user_id@, code@);
        let mut codes: StrMap<Offense> = match self.offenses.remove(user_id) {
            Some(m) => m,
            None => StrMap::new(),
        };
        let ghost codes0 = codes@;
        let offense: Offense = match codes.remove(code) {
            Some(o) => o,
            None => Offense { channels: StrSet::new(), messages: Vec::new(), escalated: false },
        };
        assert(offense.model().messages =~= before@.offense(key.0, key.1).messages);
        assert(offense.model() == before@.offense(key.0, key.1));
        let mut channels = offense.channels;
        let mut messages = offense.messages;
        let ghost earlier = pairs(messages@);
        let _ = channels.insert(channel_id.to_string());
        messages.push((channel_id.to_string(), message_id.to_string()));
        assert(pairs(messages@) =~= earlier.push((channel_id@, message_id@)));
        let ghost now = seen(before@.offense(key.0, key.1), channel_id@, message_id@);
        let across = channels.len() >= 2;
        let action;
        let left;
        if across {
            let rest: Vec<(String, String)> = Vec::new();
            assert(pairs(rest@) =~= Seq::<(Seq<char>, Seq<char>)>::empty());
            left = Offense { channels, messages: rest, escalated: true };
            action = Action::Delete { messages, dm: !offense.escalated };
        } else {
            left = Offense { channels, messages, escalated: offense.escalated };
            action = Action::Warn;
        }
        assert(left.model() == recorded(before@.offense(key.0, key.1), channel_id@, message_id@));
        let ghost kept = left;
        let _ = codes.insert(code.to_string(), left);
        assert(codes@ =~= codes0.insert(code@, kept));
        let _ = self.offenses.insert(user_id.to_string(), codes);
        proof {
            let want = before@.after(user_id@, code@, channel_id@, message_id@);
            assert forall|k: (Seq<char>, Seq<char>)|
                self@.offenses.contains_key(k) == want.offenses.contains_key(k) by {
                if k.0 == user_id@ {
                    assert(self.offenses@[k.0]@ == codes0.insert(code@, kept));
                }
            }
            assert forall|k: (Seq<char>, Seq<char>)|
                want.offenses.contains_key(k) implies self@.offenses[k] == want.offenses[k] by {
                assert(self@.offenses.contains_key(k));
            }
            assert(self@.offenses =~= want.offenses);
        }
        action
    }

    /// True the first time it is called for a user, false after that.
    pub fn should_notify_delete_failure(&mut self, user_id: &str) -> (first: bool)
        ensures
            first == !old(self)@.notified.contains(user_id@),
            final(self)@.notified == old(self)@.notified.insert(user_id@),
            final(self)@.offenses == old(self)@.offenses,
    {
        self.notified.insert(user_id.to_string())
    }
}

/// An offense is consistent: the operator was alerted exactly when the code was
/// seen in two channels, no message is kept back after that, and the messages
/// kept before it are from the channels it was seen in.
pub open spec fn consistent(o: OffenseModel) -> bool {
    &&& o.channels.finite()
    &&& o.escalated <==> o.channels.len() >= 2
    &&& o.escalated ==> o.messages.len() == 0
    &&& forall|i: int| 0 <= i < o.messages.len() ==> o.channels.contains(#[trigger] o.messages[i].0)
}

/// Offenses start consistent and stay so.
pub proof fn law_consistent(o: OffenseModel, channel: Seq<char>, message: Seq<char>)
    ensures
        consistent(clean()),
        consistent(o) ==> consistent(recorded(o, channel, message)),
{
    if consistent(o) {
        let s = seen(o, channel, message);
        assert(o.channels.len() <= s.channels.len());
    }
}

/// As long as a code stays in one channel, each message is answered with a
/// warning.
pub proof fn law_one_channel_warns(o: OffenseModel, channel: Seq<char>, message: Seq<char>)
    requires
        o.channels.subset_of(set![channel]),
    ensures
        answer(o, channel, message) == ActionModel::Warn,
        recorded(o, channel, message).channels == set![channel],
{
    assert(o.channels.insert(channel) =~= set![channel]);
}

/// The second channel escalates: every message recorded so far and the new one
/// are deleted, and the operator is alerted.
pub proof fn law_second_channel_escalates(
    o: OffenseModel,
    first: Seq<char>,
    channel: Seq<char>,
    message: Seq<char>,
)
    requires
        consistent(o),
        o.channels == set![first],
        channel != first,
    ensures
        answer(o, channel, message) == (ActionModel::Delete {
            messages: o.messages.push((channel, message)),
            dm: true,
        }),
        recorded(o, channel, message).escalated,
{
    assert(o.channels.insert(channel).len() == 2);
    assert(!o.escalated);
}

/// After the escalation only the new message is deleted, and nobody is alerted
/// again.
pub proof fn law_escalated_deletes_the_new_one(
    o: OffenseModel,
    channel: Seq<char>,
    message: Seq<char>,
)
    requires
        consistent(o),
        o.escalated,
    ensures
        answer(o, channel, message) == (ActionModel::Delete {
            messages: seq![(channel, message)],
            dm: false,
        }),
        recorded(o, channel, message).escalated,
{
    assert(o.channels.len() <= o.channels.insert(channel).len());
    assert(o.messages.push((channel, message)) =~= seq![(channel, message)]);
}

/// Offenses of other users or with other codes are left alone.
pub proof fn law_tracked_separately(
    t: TrackerModel,
    user: Seq<char>,
    code: Seq<char>,
    channel: Seq<char>,
    message: Seq<char>,
    other_user: Seq<char>,
    other_code: Seq<char>,
)
    requires
        (other_user, other_code) != (user, code),
    ensures
        t.after(user, code, channel, message).offense(other_user, other_code) == t.offense(
            other_user,
            other_code,
        ),
        t.after(user, code, channel, message).notified == t.notified,
{
}

/// The offense after the posts `posts`, given as channel and message ids.
pub open spec fn after_posts(posts: Seq<(Seq<char>, Seq<char>)>) -> OffenseModel
    decreases posts.len(),
{
    if posts.len() == 0 {
        clean()
    } else {
        recorded(after_posts(posts.drop_last()), posts.last().0, posts.last().1)
    }
}

/// The answer to the last of the posts `posts`.
pub open spec fn last_answer(posts: Seq<(Seq<char>, Seq<char>)>) -> ActionModel {
    answer(after_posts(posts.drop_last()), posts.last().0, posts.last().1)
}

/// All messages handed to deletion over the posts `posts`, in order.
pub open spec fn handed(posts: Seq<(Seq<char>, Seq<char>)>) -> Seq<(Seq<char>, Seq<char>)>
    decreases posts.len(),
{
    if posts.len() == 0 {
        Seq::empty()
    } else {
        handed(posts.drop_last()) + (match last_answer(posts) {
            ActionModel::Warn => Seq::empty(),
            ActionModel::Delete { messages, dm } => messages,
        })
    }
}

/// How often the operator is alerted over the posts `posts`.
pub open spec fn alerts(posts: Seq<(Seq<char>, Seq<char>)>) -> nat
    decreases posts.len(),
{
    if posts.len() == 0 {
        0
    } else {
        alerts(posts.drop_last()) + (match last_answer(posts) {
            ActionModel::Delete { messages, dm } if dm => 1nat,
            _ => 0nat,
        })
    }
}

/// Whatever a user posts under one code: no message is lost and none is handed
/// to deletion twice, and the operator is alerted once if the code was seen in
/// two channels, else never.
pub proof fn law_every_message_handled_once(posts: Seq<(Seq<char>, Seq<char>)>)
    ensures
        consistent(after_posts(posts)),
        after_posts(posts).channels == posts.map_values(|p: (Seq<char>, Seq<char>)| p.0).to_set(),
        handed(posts) + after_posts(posts).messages == posts,
        alerts(posts) == (if after_posts(posts).channels.len() >= 2 {
            1nat
        } else {
            0nat
        }),
    decreases posts.len(),
{
    let channel = |p: (Seq<char>, Seq<char>)| p.0;
    if posts.len() == 0 {
        assert(posts.map_values(channel).to_set() =~= Set::<Seq<char>>::empty());
        assert(handed(posts) + after_posts(posts).messages =~= posts);
    } else {
        let earlier = posts.drop_last();
        let p = posts.last();
        let o = after_posts(earlier);
        law_every_message_handled_once(earlier);
        law_consistent(o, p.0, p.1);
        let a = earlier.map_values(channel);
        let b = posts.map_values(channel);
        assert(b =~= a.push(p.0));
        assert forall|x: Seq<char>| b.contains(x) <==> a.contains(x) || x == p.0 by {
            assert(b[a.len() as int] == p.0);
            if a.contains(x) {
                let j = choose|j: int| 0 <= j < a.len() && a[j] == x;
                assert(b[j] == x);
            }
        }
        assert(b.to_set() =~= a.to_set().insert(p.0));
        assert(o.channels.len() <= o.channels.insert(p.0).len());
        assert(posts =~= earlier.push(p));
        assert(handed(posts) + after_posts(posts).messages =~= posts);
    }
}

/// The answers to the codes of one message, in order.
pub open spec fn answers(
    t: TrackerModel,
    user: Seq<char>,
    codes: Seq<Seq<char>>,
    channel: Seq<char>,
    message: Seq<char>,
) -> Seq<ActionModel>
    decreases codes.len(),
{
    if codes.len() == 0 {
        Seq::empty()
    } else {
        let earlier = codes.drop_last();
        answers(t, user, earlier, channel, message).push(
            answer(
                after_all(t, user, earlier, channel, message).offense(user, codes.last()),
                channel,
                message,
            ),
        )
    }
}

/// The memory after all codes of one message.
pub open spec fn after_all(
    t: TrackerModel,
    user: Seq<char>,
    codes: Seq<Seq<char>>,
    channel: Seq<char>,
    message: Seq<char>,
) -> TrackerModel
    decreases codes.len(),
{
    if codes.len() == 0 {
        t
    } else {
        after_all(t, user, codes.drop_last(), channel, message).after(
            user,
            codes.last(),
            channel,
            message,
        )
    }
}

/// The messages that the answers hand to deletion, in order.
pub open spec fn doomed(actions: Seq<ActionModel>) -> Seq<(Seq<char>, Seq<char>)>
    decreases actions.len(),
{
    if actions.len() == 0 {
        Seq::empty()
    } else {
        doomed(actions.drop_last()) + (match actions.last() {
            ActionModel::Warn => Seq::empty(),
            ActionModel::Delete { messages, dm } => messages,
        })
    }
}

/// The codes that the operator is alerted to, in order.
pub open spec fn alerted(codes: Seq<Seq<char>>, actions: Seq<ActionModel>) -> Seq<Seq<char>>
    decreases codes.len(),
{
    if codes.len() == 0 {
        Seq::empty()
    } else {
        let earlier = alerted(codes.drop_last(), actions.drop_last());
        match actions.last() {
            ActionModel::Delete { messages, dm } if dm => earlier.push(codes.last()),
            _ => earlier,
        }
    }
}

/// `a` comes before `b`: by channel, and by message within a channel.
pub open spec fn pair_less(a: (Seq<char>, Seq<char>), b: (Seq<char>, Seq<char>)) -> bool {
    crate::text::lex_less(a.0, b.0) || (a.0 == b.0 && crate::text::lex_less(a.1, b.1))
}

/// `s` with `p` in its place in the order, unless it is there already.
pub open spec fn placed(s: Seq<(Seq<char>, Seq<char>)>, p: (Seq<char>, Seq<char>)) -> Seq<
    (Seq<char>, Seq<char>),
>
    decreases s.len(),
{
    if s.len() == 0 {
        seq![p]
    } else if s[0] == p {
        s
    } else if pair_less(p, s[0]) {
        seq![p] + s
    } else {
        seq![s[0]] + placed(s.drop_first(), p)
    }
}

/// The members of `s` in order, each once.
pub open spec fn ordered(s: Seq<(Seq<char>, Seq<char>)>) -> Seq<(Seq<char>, Seq<char>)>
    decreases s.len(),
{
    if s.len() == 0 {
        s
    } else {
        placed(ordered(s.drop_last()), s.last())
    }
}

/// Each member of `s` comes before those behind it.
pub open spec fn increasing(s: Seq<(Seq<char>, Seq<char>)>) -> bool {
    forall|i: int, j: int| 0 <= i < j < s.len() ==> pair_less(#[trigger] s[i], #[trigger] s[j])
}

/// Whether the first pair comes before the second.
fn less_pair(a: &(String, String), b: &(String, String)) -> (r: bool)
    ensures
        r == pair_less((a.0@, a.1@), (b.0@, b.1@)),
{
    let c = chars_of(a.0.as_str());
    let d = chars_of(b.0.as_str());
    if less(c.as_slice(), d.as_slice()) {
        return true;
    }
    if !same(a.0.as_str(), b.0.as_str()) {
        return false;
    }
    let e = chars_of(a.1.as_str());
    let f = chars_of(b.1.as_str());
    less(e.as_slice(), f.as_slice())
}

/// Puts `p` in its place in the order, unless it is there already.
fn place(s: &mut Vec<(String, String)>, p: (String, String))
    ensures
        pairs(final(s)@) == placed(pairs(old(s)@), (p.0@, p.1@)),
{
    let ghost all = pairs(s@);
    let ghost q = (p.0@, p.1@);
    let mut i: usize = 0;
    assert(all.skip(0) == all);
    assert(all.take(0) + placed(all.skip(0), q) =~= placed(all, q));
    while i < s.len()
        invariant_except_break
            i <= s.len(),
            all == pairs(s@),
            q == (p.0@, p.1@),
            s@ == old(s)@,
            all.take(i as int) + placed(all.skip(i as int), q) == placed(all, q),
        ensures
            i <= s.len(),
            all == pairs(s@),
            s@ == old(s)@,
            all.take(i as int) + seq![q] + all.skip(i as int) == placed(all, q),
        decreases s.len() - i,
    {
        let ghost rest = all.skip(i as int);
        assert(rest[0] == (s@[i as int].0@, s@[i as int].1@));
        if same(s[i].0.as_str(), p.0.as_str()) && same(s[i].1.as_str(), p.1.as_str()) {
            assert(all.take(i as int) + rest =~= all);
            return ;
        }
        if less_pair(&p, &s[i]) {
            assert(all.take(i as int) + (seq![q] + rest) =~= all.take(i as int) + seq![q] + rest);
            break ;
        }
        assert(rest.drop_first() == all.skip(i + 1));
        assert(all.take(i as int) + (seq![rest[0]] + placed(rest.drop_first(), q)) =~= all.take(
            i + 1,
        ) + placed(all.skip(i + 1), q));
        i += 1;
        proof {
            if i == s.len() {
                assert(all.skip(i as int).len() == 0);
                assert(placed(all.skip(i as int), q) == seq![q]);
                assert(all.take(i as int) + seq![q] + all.skip(i as int) =~= all.take(i as int)
                    + seq![q]);
            }
        }
    }
    proof {
        if all.len() == 0 {
            assert(all.take(0) + seq![q] + all.skip(0) =~= placed(all, q));
        }
    }
    s.insert(i, p);
    assert(pairs(s@) =~= all.take(i as int) + seq![q] + all.skip(i as int));
}

/// Puts pairs in order and drops repetitions.
pub fn sort_pairs(items: Vec<(String, String)>) -> (out: Vec<(String, String)>)
    ensures
        pairs(out@) == ordered(pairs(items@)),
{
    let ghost all = pairs(items@);
    let mut out: Vec<(String, String)> = Vec::new();
    let mut i: usize = 0;
    assert(pairs(out@) =~= ordered(all.take(0)));
    while i < items.len()
        invariant
            i <= items.len(),
            all == pairs(items@),
            pairs(out@) == ordered(all.take(i as int)),
        decreases items.len() - i,
    {
        let item = (items[i].0.clone(), items[i].1.clone());
        assert(all.take(i + 1).drop_last() == all.take(i as int));
        assert(all.take(i + 1).last() == (item.0@, item.1@));
        place(&mut out, item);
        i += 1;
    }
    assert(all.take(i as int) == all);
    out
}

proof fn lemma_pairs_total(a: (Seq<char>, Seq<char>), b: (Seq<char>, Seq<char>))
    ensures
        pair_less(a, b) || pair_less(b, a) || a == b,
        !pair_less(a, a),
{
    crate::text::lemma_lex_total(a.0, b.0);
    crate::text::lemma_lex_total(a.1, b.1);
    crate::text::lemma_lex_total(a.0, a.0);
    crate::text::lemma_lex_total(a.1, a.1);
}

proof fn lemma_pairs_transitive(
    a: (Seq<char>, Seq<char>),
    b: (Seq<char>, Seq<char>),
    c: (Seq<char>, Seq<char>),
)
    requires
        pair_less(a, b),
        pair_less(b, c),
    ensures
        pair_less(a, c),
{
    if crate::text::lex_less(a.0, b.0) && crate::text::lex_less(b.0, c.0) {
        crate::text::lemma_lex_transitive(a.0, b.0, c.0);
    } else if a.0 == b.0 && b.0 == c.0 {
        crate::text::lemma_lex_transitive(a.1, b.1, c.1);
    }
}

proof fn lemma_placed(s: Seq<(Seq<char>, Seq<char>)>, p: (Seq<char>, Seq<char>))
    requires
        increasing(s),
    ensures
        increasing(placed(s, p)),
        forall|x: (Seq<char>, Seq<char>)| #[trigger]
            placed(s, p).contains(x) <==> s.contains(x) || x == p,
    decreases s.len(),
{
    let r = placed(s, p);
    if s.len() == 0 {
        assert(r[0] == p);
    } else if s[0] == p {
    } else if pair_less(p, s[0]) {
        assert forall|i: int, j: int| 0 <= i < j < r.len() implies pair_less(
            #[trigger] r[i],
            #[trigger] r[j],
        ) by {
            if i == 0 && j > 1 {
                assert(pair_less(s[0], s[j - 1]));
                lemma_pairs_transitive(p, s[0], s[j - 1]);
            } else if i > 0 {
                assert(pair_less(s[i - 1], s[j - 1]));
            }
        }
        assert forall|x: (Seq<char>, Seq<char>)| #[trigger]
            r.contains(x) <==> s.contains(x) || x == p by {
            assert(r[0] == p);
            if s.contains(x) {
                let k = choose|k: int| 0 <= k < s.len() && s[k] == x;
                assert(r[k + 1] == x);
            }
            if r.contains(x) {
                let k = choose|k: int| 0 <= k < r.len() && r[k] == x;
                if k > 0 {
                    assert(s[k - 1] == x);
                }
            }
        }
    } else {
        let t = s.drop_first();
        assert(increasing(t)) by {
            assert forall|i: int, j: int| 0 <= i < j < t.len() implies pair_less(
                #[trigger] t[i],
                #[trigger] t[j],
            ) by {
                assert(t[i] == s[i + 1] && t[j] == s[j + 1]);
            }
        }
        lemma_placed(t, p);
        lemma_pairs_total(p, s[0]);
        let q = placed(t, p);
        assert forall|i: int, j: int| 0 <= i < j < r.len() implies pair_less(
            #[trigger] r[i],
            #[trigger] r[j],
        ) by {
            if i == 0 {
                assert(r[j] == q[j - 1]);
                assert(q.contains(q[j - 1]));
                if q[j - 1] != p {
                    let k = choose|k: int| 0 <= k < t.len() && t[k] == q[j - 1];
                    assert(t[k] == s[k + 1]);
                }
            } else {
                assert(pair_less(q[i - 1], q[j - 1]));
            }
        }
        assert forall|x: (Seq<char>, Seq<char>)| #[trigger]
            r.contains(x) <==> s.contains(x) || x == p by {
            if r.contains(x) {
                let k = choose|k: int| 0 <= k < r.len() && r[k] == x;
                if k > 0 {
                    assert(q[k - 1] == x);
                    assert(q.contains(x));
                    if x != p {
                        let l = choose|l: int| 0 <= l < t.len() && t[l] == x;
                        assert(s[l + 1] == x);
                    }
                }
            }
            if s.contains(x) || x == p {
                if x == s[0] {
                    assert(r[0] == x);
                } else {
                    if s.contains(x) {
                        let l = choose|l: int| 0 <= l < s.len() && s[l] == x;
                        assert(t[l - 1] == x);
                    }
                    assert(q.contains(x));
                    let k = choose|k: int| 0 <= k < q.len() && q[k] == x;
                    assert(r[k + 1] == x);
                }
            }
        }
    }
}

/// Putting in order loses no member, adds none, and leaves each once.
pub proof fn law_ordered(s: Seq<(Seq<char>, Seq<char>)>)
    ensures
        increasing(ordered(s)),
        ordered(s).no_duplicates(),
        ordered(s).to_set() == s.to_set(),
    decreases s.len(),
{
    if s.len() > 0 {
        let t = s.drop_last();
        law_ordered(t);
        lemma_placed(ordered(t), s.last());
        assert forall|x: (Seq<char>, Seq<char>)| ordered(s).contains(x) <==> s.contains(x) by {
            assert(ordered(t).contains(x) <==> t.contains(x)) by {
                assert(ordered(t).to_set().contains(x) <==> t.to_set().contains(x));
            }
            assert(s[s.len() - 1] == s.last());
            if t.contains(x) {
                let k = choose|k: int| 0 <= k < t.len() && t[k] == x;
                assert(s[k] == x);
            }
            if s.contains(x) {
                let k = choose|k: int| 0 <= k < s.len() && s[k] == x;
                if k < t.len() {
                    assert(t[k] == x);
                }
            }
        }
        assert(ordered(s).to_set() =~= s.to_set());
    }
    let r = ordered(s);
    assert forall|i: int, j: int| 0 <= i < r.len() && 0 <= j < r.len() && i != j implies r[i]
        != r[j] by {
        lemma_pairs_total(r[i], r[j]);
        if i < j {
            assert(pair_less(r[i], r[j]));
        } else {
            assert(pair_less(r[j], r[i]));
        }
    }
}

/// One step of the enforcement.
pub enum Request {
    /// Warn the user in the channel.
    Warn,
    /// Tell the operator of a code that was spread.
    Alert { code: String },
    /// Delete a message.
    Delete { channel_id: String, message_id: String },
    /// Say in the channel that deleting failed there.
    Notice { channel_id: String },
}

/// One step of the enforcement, with texts as characters.
pub enum RequestModel {
    Warn,
    Alert { code: Seq<char> },
    Delete { channel_id: Seq<char>, message_id: Seq<char> },
    Notice { channel_id: Seq<char> },
}

impl View for Request {
    type V = RequestModel;

    open spec fn view(&self) -> RequestModel {
        match *self {
            Request::Warn => RequestModel::Warn,
            Request::Alert { code } => RequestModel::Alert { code: code@ },
            Request::Delete { channel_id, message_id } => RequestModel::Delete {
                channel_id: channel_id@,
                message_id: message_id@,
            },
            Request::Notice { channel_id } => RequestModel::Notice { channel_id: channel_id@ },
        }
    }
}

/// The steps as models.
pub open spec fn requests_of(s: Seq<Request>) -> Seq<RequestModel> {
    s.map_values(|r: Request| r@)
}

/// The alerts for the codes.
pub open spec fn alerts_for(codes: Seq<Seq<char>>) -> Seq<RequestModel> {
    codes.map_values(|c: Seq<char>| RequestModel::Alert { code: c })
}

/// The deletions of the messages.
pub open spec fn deletions_of(s: Seq<(Seq<char>, Seq<char>)>) -> Seq<RequestModel> {
    s.map_values(
        |p: (Seq<char>, Seq<char>)| RequestModel::Delete { channel_id: p.0, message_id: p.1 },
    )
}

/// The steps that the answers to the codes of one message lead to: nothing
/// without codes; one warning where nothing is to be deleted; else first the
/// alerts and then the deletions.
pub open spec fn steps(codes: Seq<Seq<char>>, actions: Seq<ActionModel>) -> Seq<RequestModel> {
    if codes.len() == 0 {
        Seq::empty()
    } else if doomed(actions).len() == 0 {
        seq![RequestModel::Warn]
    } else {
        alerts_for(alerted(codes, actions)) + deletions_of(ordered(doomed(actions)))
    }
}

impl Tracker {
    /// Records the codes of one message and decides on the steps.
    pub fn judge(
        &mut self,
        user_id: &str,
        codes: &Vec<String>,
        channel_id: &str,
        message_id: &str,
    ) -> (out: Vec<Request>)
        ensures
            final(self)@ == after_all(
                old(self)@,
                user_id@,
                texts(codes@),
                channel_id@,
                message_id@,
            ),
            requests_of(out@) == steps(
                texts(codes@),
                answers(old(self)@, user_id@, texts(codes@), channel_id@, message_id@),
            ),
    {
        let ghost t = self@;
        let ghost all = texts(codes@);
        let mut deletes: Vec<(String, String)> = Vec::new();
        let mut dm_codes: Vec<String> = Vec::new();
        let mut i: usize = 0;
        assert(pairs(deletes@) =~= doomed(Seq::<ActionModel>::empty()));
        assert(texts(dm_codes@) =~= alerted(all.take(0), Seq::<ActionModel>::empty()));
        assert(all.take(0) =~= Seq::<Seq<char>>::empty());
        while i < codes.len()
            invariant
                i <= codes.len(),
                all == texts(codes@),
                self@ == after_all(t, user_id@, all.take(i as int), channel_id@, message_id@),
                pairs(deletes@) == doomed(
                    answers(t, user_id@, all.take(i as int), channel_id@, message_id@),
                ),
                texts(dm_codes@) == alerted(
                    all.take(i as int),
                    answers(t, user_id@, all.take(i as int), channel_id@, message_id@),
                ),
            decreases codes.len() - i,
        {
            let ghost now = all.take(i as int);
            let ghost next = all.take(i + 1);
            let ghost earlier = answers(t, user_id@, now, channel_id@, message_id@);
            let ghost later = answers(t, user_id@, next, channel_id@, message_id@);
            assert(next.drop_last() == now);
            assert(next.last() == codes@[i as int]@);
            let action = self.record(user_id, codes[i].as_str(), channel_id, message_id);
            assert(later == earlier.push(action@));
            assert(later.drop_last() =~= earlier);
            let ghost before = pairs(deletes@);
            let ghost told = texts(dm_codes@);
            match action {
                Action::Delete { messages, dm } => {
                    let mut messages = messages;
                    let ghost more = pairs(messages@);
                    if dm {
                        dm_codes.push(codes[i].clone());
                        assert(texts(dm_codes@) =~= told.push(codes@[i as int]@));
                    }
                    deletes.append(&mut messages);
                    assert(pairs(deletes@) =~= before + more);
                },
                Action::Warn => {
                    assert(pairs(deletes@) =~= before + Seq::<(Seq<char>, Seq<char>)>::empty());
                },
            }
            i += 1;
        }
        assert(all.take(i as int) == all);
        let ghost actions = answers(t, user_id@, all, channel_id@, message_id@);
        let mut out: Vec<Request> = Vec::new();
        if codes.len() == 0 {
            assert(requests_of(out@) =~= Seq::<RequestModel>::empty());
            return out;
        }
        assert(pairs(deletes@).len() == deletes@.len());
        if deletes.len() == 0 {
            out.push(Request::Warn);
            assert(requests_of(out@) =~= seq![RequestModel::Warn]);
            return out;
        }
        let ghost told = texts(dm_codes@);
        let mut j: usize = 0;
        assert(requests_of(out@) =~= alerts_for(told.take(0)));
        while j < dm_codes.len()
            invariant
                j <= dm_codes.len(),
                told == texts(dm_codes@),
                requests_of(out@) == alerts_for(told.take(j as int)),
            decreases dm_codes.len() - j,
        {
            let ghost so_far = requests_of(out@);
            let ghost added = RequestModel::Alert { code: told[j as int] };
            out.push(Request::Alert { code: dm_codes[j].clone() });
            assert(requests_of(out@) =~= so_far.push(added));
            assert(alerts_for(told.take(j + 1)) =~= alerts_for(told.take(j as int)).push(added));
            j += 1;
        }
        assert(told.take(j as int) == told);
        let sorted = sort_pairs(deletes);
        let ghost gone = pairs(sorted@);
        let mut k: usize = 0;
        assert(requests_of(out@) =~= alerts_for(told) + deletions_of(gone.take(0)));
        while k < sorted.len()
            invariant
                k <= sorted.len(),
                gone == pairs(sorted@),
                requests_of(out@) == alerts_for(told) + deletions_of(gone.take(k as int)),
            decreases sorted.len() - k,
        {
            let ghost so_far = requests_of(out@);
            let ghost added = RequestModel::Delete {
                channel_id: gone[k as int].0,
                message_id: gone[k as int].1,
            };
            out.push(
                Request::Delete {
                    channel_id: sorted[k].0.clone(),
                    message_id: sorted[k].1.clone(),
                },
            );
            assert(requests_of(out@) =~= so_far.push(added));
            assert(deletions_of(gone.take(k + 1)) =~= deletions_of(gone.take(k as int)).push(
                added,
            ));
            assert(requests_of(out@) =~= alerts_for(told) + deletions_of(gone.take(k + 1)));
            k += 1;
        }
        assert(gone.take(k as int) == gone);
        out
    }
}

/// The warning.
pub open spec fn warning_text(user: Seq<char>) -> Seq<char> {
    "⚠️ <@"@ + user + "> Les liens d'invitation Discord ne sont pas autorisés ici."@
}

/// The alert to the operator.
pub open spec fn alert_text(user: Seq<char>, code: Seq<char>) -> Seq<char> {
    "🚨 <@"@ + user + "> (id "@ + user + ") a posté le lien d'invitation discord.gg/"@ + code
        + " dans plusieurs salons. Suppression des messages tentée."@
}

/// The notice of a failed deletion.
pub open spec fn notice_text(user: Seq<char>) -> Seq<char> {
    "⚠️ Impossible de supprimer le(s) message(s) d'invitation de <@"@ + user
        + "> — permission « Gérer les messages » manquante ?"@
}

/// What a step asks of Discord.
pub enum Call {
    /// Send a text to a channel.
    Send { channel_id: String, text: String },
    /// Send a text to a user.
    Dm { user_id: String, text: String },
    /// Delete a message.
    Delete { channel_id: String, message_id: String },
}

/// What a step asks of Discord, with texts as characters.
pub enum CallModel {
    Send { channel_id: Seq<char>, text: Seq<char> },
    Dm { user_id: Seq<char>, text: Seq<char> },
    Delete { channel_id: Seq<char>, message_id: Seq<char> },
}

impl View for Call {
    type V = CallModel;

    open spec fn view(&self) -> CallModel {
        match *self {
            Call::Send { channel_id, text } => CallModel::Send {
                channel_id: channel_id@,
                text: text@,
            },
            Call::Dm { user_id, text } => CallModel::Dm { user_id: user_id@, text: text@ },
            Call::Delete { channel_id, message_id } => CallModel::Delete {
                channel_id: channel_id@,
                message_id: message_id@,
            },
        }
    }
}

/// What a step asks of Discord, for a message of `user` in `channel`.
pub open spec fn call_for(r: RequestModel, user: Seq<char>, channel: Seq<char>) -> CallModel {
    match r {
        RequestModel::Warn => CallModel::Send { channel_id: channel, text: warning_text(user) },
        RequestModel::Alert { code } => CallModel::Dm {
            user_id: ALERT_USER_ID@,
            text: alert_text(user, code),
        },
        RequestModel::Delete { channel_id, message_id } => CallModel::Delete {
            channel_id,
            message_id,
        },
        RequestModel::Notice { channel_id } => CallModel::Send {
            channel_id,
            text: notice_text(user),
        },
    }
}

/// What the log says of a step that was done, or that failed with `error`.
pub open spec fn report(
    r: RequestModel,
    user: Seq<char>,
    channel: Seq<char>,
    error: Option<Seq<char>>,
) -> Option<Seq<char>> {
    match (r, error) {
        (RequestModel::Warn, None) => Some(
            "moderation: warned "@ + user + " in "@ + channel + " (invite link)"@,
        ),
        (RequestModel::Warn, Some(e)) => Some(
            "moderation: warn failed in "@ + channel + ": "@ + e,
        ),
        (RequestModel::Alert { code }, None) => Some(
            "moderation: alerted operator — "@ + user + " spammed "@ + code + " cross-channel"@,
        ),
        (RequestModel::Alert { code }, Some(e)) => Some("moderation: operator DM failed: "@ + e),
        (RequestModel::Delete { channel_id, message_id }, None) => Some(
            "moderation: deleted invite message "@ + message_id + " in "@ + channel_id,
        ),
        (RequestModel::Delete { channel_id, message_id }, Some(e)) => Some(
            "moderation: delete of "@ + message_id + " in "@ + channel_id + " failed: "@ + e,
        ),
        (RequestModel::Notice { channel_id }, None) => None,
        (RequestModel::Notice { channel_id }, Some(e)) => Some(
            "moderation: delete-failure notice failed in "@ + channel_id + ": "@ + e,
        ),
    }
}

/// Words what a step asks of Discord.
pub fn call_of(r: &Request, user_id: &str, channel_id: &str) -> (out: Call)
    ensures
        out@ == call_for(r@, user_id@, channel_id@),
{
    match r {
        Request::Warn => Call::Send {
            channel_id: channel_id.to_string(),
            text: cat3(
                "⚠️ <@",
                user_id,
                "> Les liens d'invitation Discord ne sont pas autorisés ici.",
            ),
        },
        Request::Alert { code } => Call::Dm {
            user_id: ALERT_USER_ID.to_string(),
            text: cat7(
                "🚨 <@",
                user_id,
                "> (id ",
                user_id,
                ") a posté le lien d'invitation discord.gg/",
                code.as_str(),
                " dans plusieurs salons. Suppression des messages tentée.",
            ),
        },
        Request::Delete { channel_id, message_id } => Call::Delete {
            channel_id: channel_id.clone(),
            message_id: message_id.clone(),
        },
        Request::Notice { channel_id } => Call::Send {
            channel_id: channel_id.clone(),
            text: cat3(
                "⚠️ Impossible de supprimer le(s) message(s) d'invitation de <@",
                user_id,
                "> — permission « Gérer les messages » manquante ?",
            ),
        },
    }
}

/// Words what the log says of a step.
pub fn report_of(
    r: &Request,
    user_id: &str,
    channel_id: &str,
    error: &Option<String>,
) -> (out: Option<String>)
    ensures
        opt_text(out) == report(r@, user_id@, channel_id@, opt_text(*error)),
{
    match (r, error) {
        (Request::Warn, None) => Some(
            cat5("moderation: warned ", user_id, " in ", channel_id, " (invite link)"),
        ),
        (Request::Warn, Some(e)) => Some(
            cat4("moderation: warn failed in ", channel_id, ": ", e.as_str()),
        ),
        (Request::Alert { code }, None) => Some(
            cat5(
                "moderation: alerted operator — ",
                user_id,
                " spammed ",
                code.as_str(),
                " cross-channel",
            ),
        ),
        (Request::Alert { code: _ }, Some(e)) => Some(
            cat2("moderation: operator DM failed: ", e.as_str()),
        ),
        (Request::Delete { channel_id, message_id }, None) => Some(
            cat4(
                "moderation: deleted invite message ",
                message_id.as_str(),
                " in ",
                channel_id.as_str(),
            ),
        ),
        (Request::Delete { channel_id, message_id }, Some(e)) => Some(
            cat6(
                "moderation: delete of ",
                message_id.as_str(),
                " in ",
                channel_id.as_str(),
                " failed: ",
                e.as_str(),
            ),
        ),
        (Request::Notice { channel_id: _ }, None) => None,
        (Request::Notice { channel_id }, Some(e)) => Some(
            cat4(
                "moderation: delete-failure notice failed in ",
                channel_id.as_str(),
                ": ",
                e.as_str(),
            ),
        ),
    }
}

/// The enforcement on one message: the steps still to be done, and the channel
/// of the first deletion that failed.
pub struct Enforcement {
    user_id: String,
    channel_id: String,
    requests: Vec<Request>,
    next: usize,
    failed_in: Option<String>,
}

/// The enforcement on one message, with the steps still to be done.
pub struct EnforcementModel {
    pub user: Seq<char>,
    pub channel: Seq<char>,
    pub pending: Seq<RequestModel>,
    pub failed_in: Option<Seq<char>>,
}

impl View for Enforcement {
    type V = EnforcementModel;

    closed spec fn view(&self) -> EnforcementModel {
        EnforcementModel {
            user: self.user_id@,
            channel: self.channel_id@,
            pending: requests_of(self.requests@).skip(self.next as int),
            failed_in: opt_text(self.failed_in),
        }
    }
}

/// The channel of the first deletion that failed, once the first of the pending
/// steps is settled.
pub open spec fn failed_channel(m: EnforcementModel, failed: bool) -> Option<Seq<char>> {
    match (m.failed_in, m.pending[0]) {
        (None, RequestModel::Delete { channel_id, message_id }) if failed => Some(channel_id),
        _ => m.failed_in,
    }
}

/// Whether the deletions are over with the first of the pending steps, and one
/// of them failed.
pub open spec fn deletions_failed(m: EnforcementModel, failed: bool) -> bool {
    &&& m.pending.len() == 1
    &&& m.pending[0] is Delete
    &&& failed_channel(m, failed) is Some
}

/// The enforcement once the first of the pending steps is settled, where
/// `notified` are the users that have had a notice.
pub open spec fn settled(
    m: EnforcementModel,
    failed: bool,
    notified: Set<Seq<char>>,
) -> EnforcementModel {
    EnforcementModel {
        user: m.user,
        channel: m.channel,
        pending: if deletions_failed(m, failed) && !notified.contains(m.user) {
            seq![RequestModel::Notice { channel_id: failed_channel(m, failed)->0 }]
        } else {
            m.pending.drop_first()
        },
        failed_in: failed_channel(m, failed),
    }
}

impl Enforcement {
    #[verifier::type_invariant]
    closed spec fn wf(self) -> bool {
        self.next <= self.requests.len()
    }

    /// Starts the enforcement on a message with this content.
    pub fn begin(
        tracker: &mut Tracker,
        user_id: &str,
        channel_id: &str,
        message_id: &str,
        content: &str,
    ) -> (out: Enforcement)
        ensures
            final(tracker)@ == after_all(
                old(tracker)@,
                user_id@,
                invite_codes(content@),
                channel_id@,
                message_id@,
            ),
            out@ == (EnforcementModel {
                user: user_id@,
                channel: channel_id@,
                pending: steps(
                    invite_codes(content@),
                    answers(
                        old(tracker)@,
                        user_id@,
                        invite_codes(content@),
                        channel_id@,
                        message_id@,
                    ),
                ),
                failed_in: None,
            }),
    {
        let codes = find_invite_codes(content);
        Self::with_codes(tracker, user_id, channel_id, message_id, &codes)
    }

    /// Starts the enforcement on a message with these codes.
    pub fn with_codes(
        tracker: &mut Tracker,
        user_id: &str,
        channel_id: &str,
        message_id: &str,
        codes: &Vec<String>,
    ) -> (out: Enforcement)
        ensures
            final(tracker)@ == after_all(
                old(tracker)@,
                user_id@,
                texts(codes@),
                channel_id@,
                message_id@,
            ),
            out@ == (EnforcementModel {
                user: user_id@,
                channel: channel_id@,
                pending: steps(
                    texts(codes@),
                    answers(old(tracker)@, user_id@, texts(codes@), channel_id@, message_id@),
                ),
                failed_in: None,
            }),
    {
        let requests = tracker.judge(user_id, codes, channel_id, message_id);
        let out = Enforcement {
            user_id: user_id.to_string(),
            channel_id: channel_id.to_string(),
            requests,
            next: 0,
            failed_in: None,
        };
        assert(requests_of(out.requests@).skip(0) =~= requests_of(out.requests@));
        out
    }

    /// What to ask of Discord next, if anything is left to do.
    pub fn current(&self) -> (r: Option<Call>)
        ensures
            match r {
                Some(call) => self@.pending.len() > 0 && call@ == call_for(
                    self@.pending[0],
                    self@.user,
                    self@.channel,
                ),
                None => self@.pending.len() == 0,
            },
    {
        proof {
            use_type_invariant(self);
        }
        if self.next < self.requests.len() {
            assert(requests_of(self.requests@).skip(self.next as int)[0]
                == self.requests@[self.next as int]@);
            Some(
                call_of(
                    &self.requests[self.next],
                    self.user_id.as_str(),
                    self.channel_id.as_str(),
                ),
            )
        } else {
            None
        }
    }

    /// Takes in how the current step went, with the error where it failed, and
    /// says what to write to the log.
    pub fn settle(&mut self, tracker: &mut Tracker, error: &Option<String>) -> (line: Option<
        String,
    >)
        requires
            old(self)@.pending.len() > 0,
        ensures
            opt_text(line) == report(
                old(self)@.pending[0],
                old(self)@.user,
                old(self)@.channel,
                opt_text(*error),
            ),
            final(self)@ == settled(old(self)@, error is Some, old(tracker)@.notified),
            final(tracker)@.offenses == old(tracker)@.offenses,
            final(tracker)@.notified == (if deletions_failed(old(self)@, error is Some) {
                old(tracker)@.notified.insert(old(self)@.user)
            } else {
                old(tracker)@.notified
            }),
    {
        proof {
            use_type_invariant(&*self);
        }
        let ghost m = self@;
        let ghost all = requests_of(self.requests@);
        let ghost n = self.next as int;
        assert(m.pending[0] == self.requests@[n]@);
        let line = report_of(
            &self.requests[self.next],
            self.user_id.as_str(),
            self.channel_id.as_str(),
            error,
        );
        let target: Option<String> = match &self.requests[self.next] {
            Request::Delete { channel_id, message_id: _ } => Some(channel_id.clone()),
            _ => None,
        };
        let deleting = target.is_some();
        let failed_in: Option<String> = match &self.failed_in {
            Some(c) => Some(c.clone()),
            None => if error.is_some() {
                target
            } else {
                None
            },
        };
        assert(opt_text(failed_in) == failed_channel(m, error is Some));
        let last = self.next + 1 == self.requests.len();
        let mut extra: bool = false;
        if last && deleting && failed_in.is_some() {
            extra = tracker.should_notify_delete_failure(self.user_id.as_str());
        }
        let mut requests: Vec<Request> = Vec::new();
        let next = self.next + 1;
        self.next = 0;
        std::mem::swap(&mut requests, &mut self.requests);
        if extra {
            if let Some(c) = &failed_in {
                let ghost notice = RequestModel::Notice { channel_id: c@ };
                requests.push(Request::Notice { channel_id: c.clone() });
                assert(requests_of(requests@) =~= all.push(notice));
                assert(all.push(notice).skip(n + 1) =~= seq![notice]);
            }
        }
        assert(m.pending.drop_first() =~= all.skip(n + 1));
        self.requests = requests;
        self.next = next;
        self.failed_in = failed_in;
        line
    }
}

/// A message gets one warning at most, however many links it holds; the
/// operator is alerted before anything is deleted; and a notice is never among
/// the first steps.
pub proof fn law_order_of_steps(codes: Seq<Seq<char>>, actions: Seq<ActionModel>)
    ensures
        forall|i: int|
            0 <= i < steps(codes, actions).len() ==> !(#[trigger] steps(codes, actions)[i]
                is Notice),
        forall|i: int|
            0 <= i < steps(codes, actions).len() && (#[trigger] steps(codes, actions)[i] is Warn)
                ==> steps(codes, actions).len() == 1,
        forall|i: int, j: int|
            0 <= i < steps(codes, actions).len() && 0 <= j < steps(codes, actions).len() && (
            #[trigger] steps(codes, actions)[i] is Alert) && (#[trigger] steps(codes, actions)[j]
                is Delete) ==> i < j,
{
    let a = alerts_for(alerted(codes, actions));
    let d = deletions_of(ordered(doomed(actions)));
    assert forall|i: int| 0 <= i < (a + d).len() implies (if i < a.len() {
        #[trigger] (a + d)[i] is Alert
    } else {
        (a + d)[i] is Delete
    }) by {
        if i >= a.len() {
            assert((a + d)[i] == d[i - a.len()]);
        }
    }
}

proof fn lemma_message_doomed(
    t: TrackerModel,
    user: Seq<char>,
    codes: Seq<Seq<char>>,
    channel: Seq<char>,
    message: Seq<char>,
)
    ensures
        doomed(answers(t, user, codes, channel, message)).len() > 0 ==> doomed(
            answers(t, user, codes, channel, message),
        ).contains((channel, message)),
    decreases codes.len(),
{
    if codes.len() > 0 {
        let earlier = codes.drop_last();
        lemma_message_doomed(t, user, earlier, channel, message);
        let before = answers(t, user, earlier, channel, message);
        let all = answers(t, user, codes, channel, message);
        assert(all.drop_last() =~= before);
        let o = after_all(t, user, earlier, channel, message).offense(user, codes.last());
        let s = seen(o, channel, message).messages;
        assert(s[s.len() - 1] == (channel, message));
        let d = doomed(before);
        match all.last() {
            ActionModel::Warn => {
                assert(doomed(all) =~= d);
            },
            ActionModel::Delete { messages, dm } => {
                assert(doomed(all) == d + messages);
                assert((d + messages)[d.len() + messages.len() - 1] == (channel, message));
            },
        }
    }
}

/// Where anything is deleted, the message that gave the cause is deleted too.
pub proof fn law_offending_message_deleted(
    t: TrackerModel,
    user: Seq<char>,
    codes: Seq<Seq<char>>,
    channel: Seq<char>,
    message: Seq<char>,
)
    requires
        codes.len() > 0,
        doomed(answers(t, user, codes, channel, message)).len() > 0,
    ensures
        steps(codes, answers(t, user, codes, channel, message)).contains(
            RequestModel::Delete { channel_id: channel, message_id: message },
        ),
{
    let actions = answers(t, user, codes, channel, message);
    lemma_message_doomed(t, user, codes, channel, message);
    law_ordered(doomed(actions));
    let o = ordered(doomed(actions));
    assert(doomed(actions).to_set().contains((channel, message)));
    assert(o.to_set().contains((channel, message)));
    let k = choose|k: int| 0 <= k < o.len() && o[k] == (channel, message);
    let a = alerts_for(alerted(codes, actions));
    assert((a + deletions_of(o))[a.len() + k] == deletions_of(o)[k]);
}

/// A failed deletion is reported in a channel where deleting failed.
pub proof fn law_notice_where_it_failed(
    m: EnforcementModel,
    failed: bool,
    notified: Set<Seq<char>>,
)
    requires
        m.pending.len() > 0,
        m.failed_in is None,
        settled(m, failed, notified).failed_in is Some,
    ensures
        failed,
        m.pending[0] matches RequestModel::Delete { channel_id, message_id } && settled(
            m,
            failed,
            notified,
        ).failed_in == Some(channel_id),
        m.pending.len() == 1 && !notified.contains(m.user) ==> settled(m, failed, notified).pending
            == seq![
            RequestModel::Notice { channel_id: settled(m, failed, notified).failed_in->0 },
        ],
{
}

/// A failed deletion is reported at most once per user, whatever else is
/// enforced later, and one user's report does not use up another's.
pub proof fn law_notice_once_per_user(
    m: EnforcementModel,
    later: EnforcementModel,
    failed: bool,
    notified: Set<Seq<char>>,
)
    ensures
        later.user == m.user ==> settled(later, failed, notified.insert(m.user)).pending
            == later.pending.drop_first(),
        later.user != m.user ==> settled(later, failed, notified.insert(m.user)) == settled(
            later,
            failed,
            notified,
        ),
{
}

/// `x` stands in `s` at the index `p` for the first time.
pub open spec fn first_at(s: Seq<Seq<char>>, x: Seq<char>, p: int) -> bool {
    0 <= p < s.len() && s[p] == x && forall|q: int| 0 <= q < p ==> #[trigger] s[q] != x
}

/// The codes are listed in the order in which they first appear.
pub proof fn law_distinct_in_order(s: Seq<Seq<char>>, i: int, j: int, p: int, q: int)
    requires
        0 <= i < j < distinct(s).len(),
        first_at(s, distinct(s)[i], p),
        first_at(s, distinct(s)[j], q),
    ensures
        p < q,
    decreases s.len(),
{
    let t = s.drop_last();
    let d = distinct(t);
    let e = distinct(s);
    law_distinct(t);
    law_distinct(s);
    assert(e[i] == d[i]);
    assert(d.to_set().contains(d[i]));
    assert(t.to_set().contains(d[i]));
    let k = choose|k: int| 0 <= k < t.len() && t[k] == d[i];
    assert(s[k] == e[i]);
    if k < p {
        assert(s[k] != e[i]);
    }
    if j < d.len() {
        assert(e[j] == d[j]);
        assert(d.to_set().contains(d[j]));
        assert(t.to_set().contains(d[j]));
        let l = choose|l: int| 0 <= l < t.len() && t[l] == d[j];
        assert(s[l] == e[j]);
        if l < q {
            assert(s[l] != e[j]);
        }
        assert forall|x: int| 0 <= x < p implies #[trigger] t[x] != d[i] by {
            assert(t[x] == s[x]);
        }
        assert forall|x: int| 0 <= x < q implies #[trigger] t[x] != d[j] by {
            assert(t[x] == s[x]);
        }
        assert(t[p] == s[p] && t[q] == s[q]);
        law_distinct_in_order(t, i, j, p, q);
    } else {
        assert(e[j] == s.last());
        if q < t.len() {
            assert(t[q] == s[q]);
            assert(t.to_set().contains(s.last()));
            assert(d.to_set().contains(s.last()));
        }
        if p == s.len() - 1 {
            assert(k < p);
        }
    }
}

/// A message is looked into exactly when no bot wrote it, its channel, its id
/// and its author are known, and its text is missing, empty or holds an invite
/// link; what is looked into is that message.
pub proof fn law_who_is_suspected(e: crate::gateway::EventModel)
    ensures
        suspected(e) is Some <==> {
            &&& e.author_bot != Some(true)
            &&& e.channel_id is Some
            &&& e.id is Some
            &&& e.author_id is Some
            &&& e.content is Some && e.content->0.len() > 0 ==> invite_codes(e.content->0).len() > 0
        },
        suspected(e) matches Some(s) ==> {
            &&& Some(s.channel_id) == e.channel_id
            &&& Some(s.message_id) == e.id
            &&& Some(s.user_id) == e.author_id
            &&& e.content is Some ==> Some(s.content) == e.content
            &&& e.content is None ==> s.content.len() == 0
        },
{
    reveal_strlit("");
}

/// The codes of one message do not get in each other's way: each is answered
/// and remembered as if it stood in the message alone, and the other codes and
/// users stay as they were.
pub proof fn law_codes_answered_apart(
    t: TrackerModel,
    user: Seq<char>,
    codes: Seq<Seq<char>>,
    channel: Seq<char>,
    message: Seq<char>,
)
    requires
        codes.no_duplicates(),
    ensures
        answers(t, user, codes, channel, message).len() == codes.len(),
        forall|i: int|
            0 <= i < codes.len() ==> #[trigger] answers(t, user, codes, channel, message)[i]
                == answer(t.offense(user, codes[i]), channel, message),
        forall|i: int|
            0 <= i < codes.len() ==> after_all(t, user, codes, channel, message).offense(
                user,
                #[trigger] codes[i],
            ) == recorded(t.offense(user, codes[i]), channel, message),
        forall|u: Seq<char>, c: Seq<char>|
            u != user || !codes.contains(c) ==> #[trigger] after_all(
                t,
                user,
                codes,
                channel,
                message,
            ).offense(u, c) == t.offense(u, c),
        after_all(t, user, codes, channel, message).notified == t.notified,
    decreases codes.len(),
{
    if codes.len() > 0 {
        let fewer = codes.drop_last();
        let c = codes.last();
        law_codes_answered_apart(t, user, fewer, channel, message);
        let before = after_all(t, user, fewer, channel, message);
        let after = after_all(t, user, codes, channel, message);
        let all = answers(t, user, codes, channel, message);
        assert(!fewer.contains(c)) by {
            if fewer.contains(c) {
                let k = choose|k: int| 0 <= k < fewer.len() && fewer[k] == c;
                assert(codes[k] == codes[codes.len() - 1]);
            }
        }
        assert(before.offense(user, c) == t.offense(user, c));
        assert forall|i: int| 0 <= i < codes.len() implies #[trigger] all[i] == answer(
            t.offense(user, codes[i]),
            channel,
            message,
        ) by {
            if i < fewer.len() {
                assert(fewer[i] == codes[i]);
                assert(all[i] == answers(t, user, fewer, channel, message)[i]);
            }
        }
        assert forall|i: int| 0 <= i < codes.len() implies after.offense(user, #[trigger] codes[i])
            == recorded(t.offense(user, codes[i]), channel, message) by {
            if i < fewer.len() {
                assert(fewer[i] == codes[i]);
                assert(codes[i] != c);
                assert(after.offense(user, codes[i]) == before.offense(user, codes[i]));
            }
        }
        assert forall|u: Seq<char>, d: Seq<char>|
            u != user || !codes.contains(d) implies #[trigger] after.offense(u, d) == t.offense(
            u,
            d,
        ) by {
            assert(codes.contains(codes[codes.len() - 1]));
            if fewer.contains(d) {
                let k = choose|k: int| 0 <= k < fewer.len() && fewer[k] == d;
                assert(codes[k] == d);
            }
            assert(before.offense(u, d) == t.offense(u, d));
        }
    }
}

proof fn lemma_doomed_and_alerted(codes: Seq<Seq<char>>, actions: Seq<ActionModel>)
    requires
        codes.len() == actions.len(),
    ensures
        forall|p: (Seq<char>, Seq<char>)| #[trigger]
            doomed(actions).contains(p) <==> exists|i: int|
                0 <= i < actions.len() && (#[trigger] actions[i]) is Delete
                    && actions[i]->messages.contains(p),
        forall|c: Seq<char>| #[trigger]
            alerted(codes, actions).contains(c) <==> exists|i: int|
                0 <= i < actions.len() && (#[trigger] actions[i]) is Delete && actions[i]->dm
                    && codes[i] == c,
    decreases actions.len(),
{
    if actions.len() > 0 {
        let fewer = actions.drop_last();
        let some = codes.drop_last();
        let n = actions.len() - 1;
        lemma_doomed_and_alerted(some, fewer);
        let d = doomed(fewer);
        let e = doomed(actions);
        let a = alerted(some, fewer);
        let b = alerted(codes, actions);
        assert forall|p: (Seq<char>, Seq<char>)| #[trigger] e.contains(p) <==> exists|i: int|
            0 <= i < actions.len() && (#[trigger] actions[i]) is Delete
                && actions[i]->messages.contains(p) by {
            if e.contains(p) {
                let k = choose|k: int| 0 <= k < e.len() && e[k] == p;
                if k < d.len() {
                    assert(d[k] == p);
                    assert(d.contains(p));
                    let i = choose|i: int|
                        0 <= i < fewer.len() && (#[trigger] fewer[i]) is Delete
                            && fewer[i]->messages.contains(p);
                    assert(actions[i] == fewer[i]);
                } else {
                    assert(actions[n]->messages[k - d.len()] == p);
                }
            }
            if exists|i: int|
                0 <= i < actions.len() && (#[trigger] actions[i]) is Delete
                    && actions[i]->messages.contains(p) {
                let i = choose|i: int|
                    0 <= i < actions.len() && (#[trigger] actions[i]) is Delete
                        && actions[i]->messages.contains(p);
                if i < n {
                    assert(fewer[i] == actions[i]);
                    assert(d.contains(p));
                    let k = choose|k: int| 0 <= k < d.len() && d[k] == p;
                    assert(e[k] == p);
                } else {
                    let ms = actions[n]->messages;
                    let k = choose|k: int| 0 <= k < ms.len() && ms[k] == p;
                    assert(e[d.len() + k] == p);
                }
            }
        }
        assert forall|c: Seq<char>| #[trigger] b.contains(c) <==> exists|i: int|
            0 <= i < actions.len() && (#[trigger] actions[i]) is Delete && actions[i]->dm
                && codes[i] == c by {
            if b.contains(c) {
                let k = choose|k: int| 0 <= k < b.len() && b[k] == c;
                if k < a.len() {
                    assert(a[k] == c);
                    assert(a.contains(c));
                    let i = choose|i: int|
                        0 <= i < fewer.len() && (#[trigger] fewer[i]) is Delete && fewer[i]->dm
                            && some[i] == c;
                    assert(actions[i] == fewer[i]);
                    assert(codes[i] == some[i]);
                } else {
                    assert(actions[n] is Delete && actions[n]->dm && codes[n] == c);
                }
            }
            if exists|i: int|
                0 <= i < actions.len() && (#[trigger] actions[i]) is Delete && actions[i]->dm
                    && codes[i] == c {
                let i = choose|i: int|
                    0 <= i < actions.len() && (#[trigger] actions[i]) is Delete && actions[i]->dm
                        && codes[i] == c;
                if i < n {
                    assert(fewer[i] == actions[i]);
                    assert(some[i] == codes[i]);
                    assert(a.contains(c));
                    let k = choose|k: int| 0 <= k < a.len() && a[k] == c;
                    assert(b[k] == c);
                } else {
                    assert(b[a.len() as int] == c);
                }
            }
        }
    }
}

/// Every answer is carried out, whatever the others are: each message that an
/// answer deletes is among the steps, the operator is alerted to each code whose
/// answer asks for it, nothing else is deleted or alerted to, and the steps are a
/// warning only if the answer to every code is one.
pub proof fn law_every_answer_carried_out(codes: Seq<Seq<char>>, actions: Seq<ActionModel>)
    requires
        codes.len() > 0,
        codes.len() == actions.len(),
        forall|i: int|
            0 <= i < actions.len() && (#[trigger] actions[i]) is Delete
                ==> actions[i]->messages.len() > 0,
    ensures
        forall|c: Seq<char>, m: Seq<char>| #[trigger]
            steps(codes, actions).contains(RequestModel::Delete { channel_id: c, message_id: m })
                <==> exists|i: int|
                0 <= i < actions.len() && (#[trigger] actions[i]) is Delete
                    && actions[i]->messages.contains((c, m)),
        forall|c: Seq<char>| #[trigger]
            steps(codes, actions).contains(RequestModel::Alert { code: c }) <==> exists|i: int|
                0 <= i < actions.len() && (#[trigger] actions[i]) is Delete && actions[i]->dm
                    && codes[i] == c,
        steps(codes, actions) == seq![RequestModel::Warn] <==> forall|i: int|
            0 <= i < actions.len() ==> (#[trigger] actions[i]) is Warn,
        steps(codes, actions).contains(RequestModel::Warn) ==> steps(codes, actions) == seq![
            RequestModel::Warn,
        ],
{
    let d = doomed(actions);
    let o = ordered(d);
    let told = alerted(codes, actions);
    let a = alerts_for(told);
    let g = deletions_of(o);
    let all = steps(codes, actions);
    lemma_doomed_and_alerted(codes, actions);
    law_ordered(d);
    if d.len() > 0 {
        assert(all == a + g);
        assert(d.contains(d[0]));
        let i = choose|i: int|
            0 <= i < actions.len() && (#[trigger] actions[i]) is Delete
                && actions[i]->messages.contains(d[0]);
        assert(!(actions[i] is Warn));
        assert(d.to_set().contains(d[0]));
        assert(o.to_set().contains(d[0]));
        assert(o.len() > 0);
        assert(g[0] is Delete);
        assert(all[a.len() as int] == g[0]);
        assert(all != seq![RequestModel::Warn]) by {
            if all == seq![RequestModel::Warn] {
                assert(all[a.len() as int] is Delete);
            }
        }
        assert forall|k: int| 0 <= k < all.len() implies (if k < a.len() {
            #[trigger] all[k] == RequestModel::Alert { code: told[k] }
        } else {
            all[k] == RequestModel::Delete {
                channel_id: o[k - a.len()].0,
                message_id: o[k - a.len()].1,
            }
        }) by {
            if k < a.len() {
                assert(all[k] == a[k]);
            } else {
                assert(all[k] == g[k - a.len()]);
            }
        }
    } else {
        assert forall|i: int| 0 <= i < actions.len() implies (#[trigger] actions[i]) is Warn by {
            if actions[i] is Delete {
                let ms = actions[i]->messages;
                assert(ms.contains(ms[0]));
                assert(d.contains(ms[0]));
            }
        }
        assert(all[0] == RequestModel::Warn);
    }
    assert forall|c: Seq<char>, m: Seq<char>| #[trigger]
        all.contains(RequestModel::Delete { channel_id: c, message_id: m }) <==> exists|i: int|
            0 <= i < actions.len() && (#[trigger] actions[i]) is Delete
                && actions[i]->messages.contains((c, m)) by {
        let r = RequestModel::Delete { channel_id: c, message_id: m };
        assert(d.contains((c, m)) <==> exists|i: int|
            0 <= i < actions.len() && (#[trigger] actions[i]) is Delete
                && actions[i]->messages.contains((c, m)));
        assert(o.to_set().contains((c, m)) <==> d.to_set().contains((c, m)));
        if all.contains(r) {
            let k = choose|k: int| 0 <= k < all.len() && all[k] == r;
            assert(k >= a.len());
            assert(o[k - a.len()] == (c, m));
            assert(o.contains((c, m)));
        }
        if d.contains((c, m)) {
            let k = choose|k: int| 0 <= k < o.len() && o[k] == (c, m);
            assert(g[k] == r);
            assert(all[a.len() + k] == r);
        }
    }
    assert forall|c: Seq<char>| #[trigger]
        all.contains(RequestModel::Alert { code: c }) <==> exists|i: int|
            0 <= i < actions.len() && (#[trigger] actions[i]) is Delete && actions[i]->dm
                && codes[i] == c by {
        let r = RequestModel::Alert { code: c };
        assert(told.contains(c) <==> exists|i: int|
            0 <= i < actions.len() && (#[trigger] actions[i]) is Delete && actions[i]->dm
                && codes[i] == c);
        if all.contains(r) {
            let k = choose|k: int| 0 <= k < all.len() && all[k] == r;
            if d.len() > 0 {
                assert(k < a.len());
                assert(told[k] == c);
            }
        }
        if told.contains(c) {
            let i = choose|i: int|
                0 <= i < actions.len() && (#[trigger] actions[i]) is Delete && actions[i]->dm
                    && codes[i] == c;
            let ms = actions[i]->messages;
            assert(ms.contains(ms[0]));
            assert(d.contains(ms[0]));
            let k = choose|k: int| 0 <= k < told.len() && told[k] == c;
            assert(a[k] == r);
            assert(all[k] == r);
        }
    }
}

/// Behind the first deletion come deletions only, by channel and by message within
/// a channel, each once.
pub proof fn law_steps_in_order(codes: Seq<Seq<char>>, actions: Seq<ActionModel>, i: int, j: int)
    requires
        codes.len() > 0,
        0 <= i < j < steps(codes, actions).len(),
        steps(codes, actions)[i] is Delete,
    ensures
        steps(codes, actions)[j] is Delete,
        ({
            let a = steps(codes, actions)[i];
            let b = steps(codes, actions)[j];
            crate::text::lex_less(a->Delete_channel_id, b->Delete_channel_id) || (
            a->Delete_channel_id == b->Delete_channel_id && crate::text::lex_less(
                a->message_id,
                b->message_id,
            ))
        }),
{
    let a = alerts_for(alerted(codes, actions));
    let o = ordered(doomed(actions));
    let g = deletions_of(o);
    law_ordered(doomed(actions));
    let n = a.len() as int;
    assert(steps(codes, actions) == a + g);
    if i < n {
        assert((a + g)[i] == a[i]);
    }
    assert((a + g)[i] == g[i - n]);
    assert((a + g)[j] == g[j - n]);
    assert(pair_less(o[i - n], o[j - n]));
}

/// The enforcement once the first steps went as `failed` says, where `notified`
/// are the users that have had a notice.
pub open spec fn after_outcomes(
    m: EnforcementModel,
    failed: Seq<bool>,
    notified: Set<Seq<char>>,
) -> EnforcementModel
    decreases failed.len(),
{
    if failed.len() == 0 {
        m
    } else {
        settled(after_outcomes(m, failed.drop_last(), notified), failed.last(), notified)
    }
}

/// Carrying a message's steps out: they are taken one after the other; and when
/// the last is done, one notice follows if a deletion failed and the user has had
/// none, in the channel of the first deletion that failed.
pub proof fn law_notice_after_the_steps(
    m: EnforcementModel,
    failed: Seq<bool>,
    notified: Set<Seq<char>>,
)
    requires
        m.failed_in is None,
        failed.len() <= m.pending.len(),
        forall|i: int| 0 <= i < m.pending.len() ==> !((#[trigger] m.pending[i]) is Notice),
        m.pending.len() > 0 && m.pending.last() is Delete || forall|i: int|
            0 <= i < m.pending.len() ==> !((#[trigger] m.pending[i]) is Delete),
    ensures
        after_outcomes(m, failed, notified).user == m.user,
        after_outcomes(m, failed, notified).channel == m.channel,
        failed.len() < m.pending.len() ==> after_outcomes(m, failed, notified).pending
            == m.pending.skip(failed.len() as int),
        match after_outcomes(m, failed, notified).failed_in {
            None => forall|i: int|
                0 <= i < failed.len() ==> !(#[trigger] failed[i] && m.pending[i] is Delete),
            Some(c) => exists|i: int|
                {
                    &&& 0 <= i < failed.len()
                    &&& #[trigger] failed[i]
                    &&& m.pending[i] is Delete
                    &&& m.pending[i]->Delete_channel_id == c
                    &&& forall|k: int|
                        0 <= k < i ==> !(#[trigger] failed[k] && m.pending[k] is Delete)
                },
        },
        failed.len() == m.pending.len() ==> after_outcomes(m, failed, notified).pending == (
        match after_outcomes(m, failed, notified).failed_in {
            Some(c) if !notified.contains(m.user) => seq![RequestModel::Notice { channel_id: c }],
            _ => Seq::empty(),
        }),
    decreases failed.len(),
{
    if failed.len() == 0 {
        assert(m.pending.skip(0) =~= m.pending);
        if m.pending.len() == 0 {
            assert(m.pending =~= Seq::<RequestModel>::empty());
        }
    } else {
        let fewer = failed.drop_last();
        let n = fewer.len() as int;
        law_notice_after_the_steps(m, fewer, notified);
        let b = after_outcomes(m, fewer, notified);
        let f = failed.last();
        assert(b.pending == m.pending.skip(n));
        assert(b.pending[0] == m.pending[n]);
        assert(b.pending.drop_first() =~= m.pending.skip(n + 1));
        assert(failed[n] == f);
        assert forall|k: int| 0 <= k < n implies #[trigger] fewer[k] == failed[k] by {}
        match b.failed_in {
            None => {
                assert forall|k: int| 0 <= k < n implies !(#[trigger] failed[k] && m.pending[k]
                    is Delete) by {
                    assert(fewer[k] == failed[k]);
                }
            },
            Some(c) => {
                let i = choose|i: int|
                    {
                        &&& 0 <= i < fewer.len()
                        &&& #[trigger] fewer[i]
                        &&& m.pending[i] is Delete
                        &&& m.pending[i]->Delete_channel_id == c
                        &&& forall|k: int|
                            0 <= k < i ==> !(#[trigger] fewer[k] && m.pending[k] is Delete)
                    };
                assert(failed[i] == fewer[i]);
                assert forall|k: int| 0 <= k < i implies !(#[trigger] failed[k] && m.pending[k]
                    is Delete) by {
                    assert(fewer[k] == failed[k]);
                }
            },
        }
        if n + 1 == m.pending.len() {
            assert(m.pending.skip(n + 1) =~= Seq::<RequestModel>::empty());
            assert(m.pending.last() == m.pending[n]);
        }
    }
}

/// What each step asks of Discord: the warning and the notice name the user, the
/// alert goes to the operator and names the user and the code, and a deletion is
/// of just that message.
pub proof fn law_words_of_the_steps(
    user: Seq<char>,
    channel: Seq<char>,
    other: Seq<char>,
    id: Seq<char>,
)
    ensures
        call_for(RequestModel::Warn, user, channel) == (CallModel::Send {
            channel_id: channel,
            text: "⚠️ <@"@ + user + "> Les liens d'invitation Discord ne sont pas autorisés ici."@,
        }),
        call_for(RequestModel::Alert { code: id }, user, channel) == (CallModel::Dm {
            user_id: "222353499638202369"@,
            text: "🚨 <@"@ + user + "> (id "@ + user
                + ") a posté le lien d'invitation discord.gg/"@ + id
                + " dans plusieurs salons. Suppression des messages tentée."@,
        }),
        call_for(RequestModel::Delete { channel_id: other, message_id: id }, user, channel) == (
        CallModel::Delete { channel_id: other, message_id: id }),
        call_for(RequestModel::Notice { channel_id: other }, user, channel) == (CallModel::Send {
            channel_id: other,
            text: "⚠️ Impossible de supprimer le(s) message(s) d'invitation de <@"@ + user
                + "> — permission « Gérer les messages » manquante ?"@,
        }),
{
}

/// What the log says of each step that was done or failed.
pub proof fn law_words_of_the_log(
    user: Seq<char>,
    channel: Seq<char>,
    other: Seq<char>,
    id: Seq<char>,
    e: Seq<char>,
)
    ensures
        report(RequestModel::Warn, user, channel, None) == Some(
            "moderation: warned "@ + user + " in "@ + channel + " (invite link)"@,
        ),
        report(RequestModel::Warn, user, channel, Some(e)) == Some(
            "moderation: warn failed in "@ + channel + ": "@ + e,
        ),
        report(RequestModel::Alert { code: id }, user, channel, None) == Some(
            "moderation: alerted operator — "@ + user + " spammed "@ + id + " cross-channel"@,
        ),
        report(RequestModel::Alert { code: id }, user, channel, Some(e)) == Some(
            "moderation: operator DM failed: "@ + e,
        ),
        report(
            RequestModel::Delete { channel_id: other, message_id: id },
            user,
            channel,
            None,
        ) == Some("moderation: deleted invite message "@ + id + " in "@ + other),
        report(
            RequestModel::Delete { channel_id: other, message_id: id },
            user,
            channel,
            Some(e),
        ) == Some("moderation: delete of "@ + id + " in "@ + other + " failed: "@ + e),
        report(RequestModel::Notice { channel_id: other }, user, channel, None) is None,
        report(RequestModel::Notice { channel_id: other }, user, channel, Some(e)) == Some(
            "moderation: delete-failure notice failed in "@ + other + ": "@ + e,
        ),
{
}

/// The operator is alerted to the codes in their order: one that comes before
/// others is alerted to before them, where its answer asks for it.
pub proof fn law_alerts_in_order(
    code: Seq<char>,
    action: ActionModel,
    codes: Seq<Seq<char>>,
    actions: Seq<ActionModel>,
)
    requires
        codes.len() == actions.len(),
    ensures
        alerted(seq![code] + codes, seq![action] + actions) == (if action is Delete && action->dm {
            seq![code]
        } else {
            Seq::empty()
        }) + alerted(codes, actions),
        doomed(seq![action] + actions) == (if action is Delete {
            action->messages
        } else {
            Seq::empty()
        }) + doomed(actions),
    decreases codes.len(),
{
    let c = seq![code] + codes;
    let a = seq![action] + actions;
    if codes.len() == 0 {
        assert(c.drop_last() =~= Seq::<Seq<char>>::empty());
        assert(a.drop_last() =~= Seq::<ActionModel>::empty());
        assert(c.last() == code && a.last() == action);
        assert(alerted(c.drop_last(), a.drop_last()) =~= Seq::<Seq<char>>::empty());
        assert(alerted(c, a) =~= (if action is Delete && action->dm {
            seq![code]
        } else {
            Seq::empty()
        }) + alerted(codes, actions));
        assert(doomed(a.drop_last()) =~= Seq::<(Seq<char>, Seq<char>)>::empty());
        assert(doomed(a) =~= (if action is Delete {
            action->messages
        } else {
            Seq::empty()
        }) + doomed(actions));
    } else {
        law_alerts_in_order(code, action, codes.drop_last(), actions.drop_last());
        assert(c.drop_last() =~= seq![code] + codes.drop_last());
        assert(a.drop_last() =~= seq![action] + actions.drop_last());
        assert(c.last() == codes.last() && a.last() == actions.last());
        assert(alerted(c, a) =~= (if action is Delete && action->dm {
            seq![code]
        } else {
            Seq::empty()
        }) + alerted(codes, actions));
        assert(doomed(a) =~= (if action is Delete {
            action->messages
        } else {
            Seq::empty()
        }) + doomed(actions));
    }
}

/// The codes of a text are what the expression's group matches in it, each once
/// and in the order of the matches; a text without a match has none.
pub proof fn law_codes_of_a_text(text: Seq<char>)
    ensures
        ({
            let ms = crate::patterns::regex_matches(INVITE@, text);
            let groups = Seq::new(ms.len(), |i: int| ms[i].2);
            &&& invite_codes(text) == distinct(groups)
            &&& invite_codes(text).no_duplicates()
            &&& invite_codes(text).len() == 0 <==> ms.len() == 0
        }),
        forall|i: int|
            0 <= i < crate::patterns::regex_matches(INVITE@, text).len() ==> invite_codes(
                text,
            ).contains((#[trigger] crate::patterns::regex_matches(INVITE@, text)[i]).2),
{
    let ms = crate::patterns::regex_matches(INVITE@, text);
    let groups = Seq::new(ms.len(), |i: int| ms[i].2);
    let mapped = ms.map_values(|m: (Seq<char>, Seq<char>, Seq<char>)| m.2);
    assert(groups =~= mapped);
    law_distinct(groups);
    let d = distinct(groups);
    assert forall|i: int| 0 <= i < ms.len() implies d.contains((#[trigger] ms[i]).2) by {
        assert(groups[i] == ms[i].2);
        assert(groups.contains(groups[i]));
        assert(groups.to_set().contains(groups[i]));
        assert(d.to_set().contains(groups[i]));
    }
    if ms.len() > 0 {
        assert(d.contains(ms[0].2));
    } else {
        assert(d =~= groups);
    }
}

/// Pairs of texts stand for pairs of strings one for one.
pub proof fn law_pairs_one_for_one(s: Seq<(String, String)>, i: int)
    ensures
        pairs(s).len() == s.len(),
        0 <= i < s.len() ==> pairs(s)[i] == (s[i].0@, s[i].1@),
{
}

/// The model of a message that is looked into holds all that the value holds, its texts as characters.
pub proof fn law_model_of_suspect(x: Suspect)
    ensures
        x@ == (SuspectModel {
            channel_id: x.channel_id@,
            message_id: x.message_id@,
            user_id: x.user_id@,
            content: x.content@,
        }),
{
}

/// The model of an answer holds all that the value holds, its texts as characters.
pub proof fn law_model_of_action(x: Action)
    ensures
        x@ == (match x {
            Action::Warn => ActionModel::Warn,
            Action::Delete { messages, dm } => ActionModel::Delete {
                messages: pairs(messages@),
                dm,
            },
        }),
{
}

/// The model of a step holds all that the value holds, its texts as characters.
pub proof fn law_model_of_request(x: Request)
    ensures
        x@ == (match x {
            Request::Warn => RequestModel::Warn,
            Request::Alert { code } => RequestModel::Alert { code: code@ },
            Request::Delete { channel_id, message_id } => RequestModel::Delete {
                channel_id: channel_id@,
                message_id: message_id@,
            },
            Request::Notice { channel_id } => RequestModel::Notice { channel_id: channel_id@ },
        }),
{
}

/// The model of a call holds all that the value holds, its texts as characters.
pub proof fn law_model_of_call(x: Call)
    ensures
        x@ == (match x {
            Call::Send { channel_id, text } => CallModel::Send {
                channel_id: channel_id@,
                text: text@,
            },
            Call::Dm { user_id, text } => CallModel::Dm { user_id: user_id@, text: text@ },
            Call::Delete { channel_id, message_id } => CallModel::Delete {
                channel_id: channel_id@,
                message_id: message_id@,
            },
        }),
{
}

/// The models of steps stand for them one for one, in their order.
pub proof fn law_models_one_for_one(s: Seq<Request>, i: int)
    ensures
        requests_of(s).len() == s.len(),
        0 <= i < s.len() ==> requests_of(s)[i] == s[i]@,
{
}

} // verus!
