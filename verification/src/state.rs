//! What the bots remember between runs.

use vstd::prelude::*;

use crate::strmap::{StrMap, StrSet};
use crate::text::parse_u64;

verus! {

/// The reactions already placed: per channel, per message, the emojis.
pub type Placed = Map<Seq<char>, Map<Seq<char>, Set<Seq<char>>>>;

/// The persistent state.
pub struct AppState {
    /// For each channel the newest message that was fully handled.
    pub last_reacted_by_channel: StrMap<String>,
    /// For each channel and message the emojis placed so far, while a message
    /// is being handled.
    pub reactions_done_by_channel: StrMap<StrMap<StrSet>>,
    /// The Sunday, as an ISO date, that the weekly polls were last posted for.
    pub last_weekly_poll: Option<String>,
}

/// The emojis placed on the message `m`.
pub open spec fn emojis_on(m: Map<Seq<char>, StrSet>) -> Map<Seq<char>, Set<Seq<char>>> {
    m.map_values(|s: StrSet| s@)
}

/// The emojis placed on the messages of each channel.
pub open spec fn placed_in(c: Map<Seq<char>, StrMap<StrSet>>) -> Placed {
    c.map_values(|m: StrMap<StrSet>| emojis_on(m@))
}

/// Whether the emoji was placed on the message.
pub open spec fn is_placed(
    p: Placed,
    channel: Seq<char>,
    message: Seq<char>,
    emoji: Seq<char>,
) -> bool {
    p.contains_key(channel) && p[channel].contains_key(message) && p[channel][message].contains(
        emoji,
    )
}

/// What was placed in the channel, nothing where nothing was.
pub open spec fn in_channel(p: Placed, channel: Seq<char>) -> Map<Seq<char>, Set<Seq<char>>> {
    if p.contains_key(channel) {
        p[channel]
    } else {
        Map::empty()
    }
}

/// What was placed on the message, nothing where nothing was.
pub open spec fn on_message(m: Map<Seq<char>, Set<Seq<char>>>, message: Seq<char>) -> Set<
    Seq<char>,
> {
    if m.contains_key(message) {
        m[message]
    } else {
        Set::empty()
    }
}

/// `p` with one more emoji placed.
pub open spec fn with_placed(
    p: Placed,
    channel: Seq<char>,
    message: Seq<char>,
    emoji: Seq<char>,
) -> Placed {
    let m = in_channel(p, channel);
    p.insert(channel, m.insert(message, on_message(m, message).insert(emoji)))
}

/// `p` without the message, and without its channel where that was its last.
pub open spec fn without_message(p: Placed, channel: Seq<char>, message: Seq<char>) -> Placed {
    if p.contains_key(channel) {
        let m = p[channel].remove(message);
        if m == Map::<Seq<char>, Set<Seq<char>>>::empty() {
            p.remove(channel)
        } else {
            p.insert(channel, m)
        }
    } else {
        p
    }
}

impl AppState {
    /// The reactions already placed.
    pub open spec fn placed(self) -> Placed {
        placed_in(self.reactions_done_by_channel@)
    }

    /// For each channel the newest message that was fully handled.
    pub open spec fn last_reacted(self) -> Map<Seq<char>, Seq<char>> {
        self.last_reacted_by_channel@.map_values(|s: String| s@)
    }

    /// Whether the emoji was placed on the message.
    pub fn has_reacted(&self, channel: &str, message: &str, emoji: &str) -> (r: bool)
        ensures
            r == is_placed(self.placed(), channel@, message@, emoji@),
    {
        match self.reactions_done_by_channel.get(channel) {
            Some(m) => match m.get(message) {
                Some(s) => s.contains(emoji),
                None => false,
            },
            None => false,
        }
    }

    /// Remembers that the emoji was placed on the message.
    pub fn record_reaction(&mut self, channel: &str, message: &str, emoji: &str)
        ensures
            final(self).placed() == with_placed(old(self).placed(), channel@, message@, emoji@),
            final(self).last_reacted_by_channel == old(self).last_reacted_by_channel,
            final(self).last_weekly_poll == old(self).last_weekly_poll,
    {
        let ghost before = self.reactions_done_by_channel@;
        let mut messages: StrMap<StrSet> = match self.reactions_done_by_channel.remove(channel) {
            Some(m) => m,
            None => StrMap::new(),
        };
        let ghost m0 = messages@;
        assert(emojis_on(m0) =~= in_channel(placed_in(before), channel@));
        let mut emojis: StrSet = match messages.remove(message) {
            Some(s) => s,
            None => StrSet::new(),
        };
        let ghost e0 = emojis@;
        let _ = emojis.insert(emoji.to_string());
        let ghost e1 = emojis;
        let _ = messages.insert(message.to_string(), emojis);
        let ghost m1 = messages;
        assert(emojis_on(m1@) =~= emojis_on(m0).insert(message@, e0.insert(emoji@)));
        let _ = self.reactions_done_by_channel.insert(channel.to_string(), messages);
        assert(self.placed() =~= placed_in(before).insert(channel@, emojis_on(m1@)));
    }

    /// Forgets what was placed on a message, once it is fully handled.
    pub fn clear_reactions(&mut self, channel: &str, message: &str)
        ensures
            final(self).placed() == without_message(old(self).placed(), channel@, message@),
            final(self).last_reacted_by_channel == old(self).last_reacted_by_channel,
            final(self).last_weekly_poll == old(self).last_weekly_poll,
    {
        let ghost before = self.reactions_done_by_channel@;
        match self.reactions_done_by_channel.remove(channel) {
            Some(m) => {
                let mut messages = m;
                let ghost m0 = messages@;
                let _ = messages.remove(message);
                let ghost m1 = messages;
                assert(emojis_on(m1@) =~= placed_in(before)[channel@].remove(message@));
                if messages.is_empty() {
                    assert(emojis_on(m1@) =~= Map::<Seq<char>, Set<Seq<char>>>::empty());
                    assert(self.placed() =~= placed_in(before).remove(channel@));
                } else {
                    proof {
                        if emojis_on(m1@) == Map::<Seq<char>, Set<Seq<char>>>::empty() {
                            assert(m1@.dom() =~= emojis_on(m1@).dom());
                            assert(m1@ =~= Map::<Seq<char>, StrSet>::empty());
                        }
                    }
                    let _ = self.reactions_done_by_channel.insert(channel.to_string(), messages);
                    assert(self.placed() =~= placed_in(before).insert(channel@, emojis_on(m1@)));
                }
            },
            None => {
                assert(self.placed() =~= placed_in(before));
            },
        }
    }

    /// The newest message of the channel that was fully handled.
    pub fn last_seen(&self, channel: &str) -> (r: Option<String>)
        ensures
            match r {
                Some(id) => self.last_reacted().contains_pair(channel@, id@),
                None => !self.last_reacted().contains_key(channel@),
            },
    {
        match self.last_reacted_by_channel.get(channel) {
            Some(id) => Some(id.clone()),
            None => None,
        }
    }

    /// Remembers the newest message of the channel that was fully handled.
    pub fn set_last_seen(&mut self, channel: &str, message: &str)
        ensures
            final(self).last_reacted() == old(self).last_reacted().insert(channel@, message@),
            final(self).reactions_done_by_channel == old(self).reactions_done_by_channel,
            final(self).last_weekly_poll == old(self).last_weekly_poll,
    {
        let ghost before = self.last_reacted();
        let _ = self.last_reacted_by_channel.insert(channel.to_string(), message.to_string());
        assert(self.last_reacted() =~= before.insert(channel@, message@));
    }
}

impl Default for AppState {
    fn default() -> (s: Self)
        ensures
            s.last_reacted() == Map::<Seq<char>, Seq<char>>::empty(),
            s.placed() == Map::<Seq<char>, Map<Seq<char>, Set<Seq<char>>>>::empty(),
            s.last_weekly_poll is None,
    {
        let s = AppState {
            last_reacted_by_channel: StrMap::new(),
            reactions_done_by_channel: StrMap::new(),
            last_weekly_poll: None,
        };
        assert(s.last_reacted() =~= Map::<Seq<char>, Seq<char>>::empty());
        assert(s.placed() =~= Map::<Seq<char>, Map<Seq<char>, Set<Seq<char>>>>::empty());
        s
    }
}

/// A recorded emoji is placed, and whatever was placed before stays placed;
/// nothing else is.
pub proof fn law_recorded_is_placed(
    p: Placed,
    channel: Seq<char>,
    message: Seq<char>,
    emoji: Seq<char>,
    c: Seq<char>,
    m: Seq<char>,
    e: Seq<char>,
)
    ensures
        is_placed(with_placed(p, channel, message, emoji), c, m, e) <==> is_placed(p, c, m, e) || (
        c == channel && m == message && e == emoji),
{
}

/// Recording an emoji twice is recording it once.
pub proof fn law_recording_is_idempotent(
    p: Placed,
    channel: Seq<char>,
    message: Seq<char>,
    emoji: Seq<char>,
)
    ensures
        with_placed(with_placed(p, channel, message, emoji), channel, message, emoji)
            == with_placed(p, channel, message, emoji),
{
    let q = with_placed(p, channel, message, emoji);
    assert(q[channel][message].insert(emoji) =~= q[channel][message]);
    assert(q[channel].insert(message, q[channel][message].insert(emoji)) =~= q[channel]);
    assert(with_placed(q, channel, message, emoji) =~= q);
}

/// After clearing a message nothing is placed on it, and what is placed on
/// others is unchanged.
pub proof fn law_cleared_is_forgotten(
    p: Placed,
    channel: Seq<char>,
    message: Seq<char>,
    c: Seq<char>,
    m: Seq<char>,
    e: Seq<char>,
)
    ensures
        is_placed(without_message(p, channel, message), c, m, e) <==> is_placed(p, c, m, e) && !(c
            == channel && m == message),
{
    if p.contains_key(channel) {
        let r = p[channel].remove(message);
        if r == Map::<Seq<char>, Set<Seq<char>>>::empty() && c == channel && m != message {
            assert(!r.contains_key(m));
            assert(!p[channel].contains_key(m));
        }
    }
}

/// Whether every channel that is listed has a message with an emoji.
pub open spec fn no_empty_entries(p: Placed) -> bool {
    &&& forall|c: Seq<char>| #[trigger]
        p.contains_key(c) ==> p[c] != Map::<Seq<char>, Set<Seq<char>>>::empty()
    &&& forall|c: Seq<char>, m: Seq<char>|
        p.contains_key(c) && #[trigger] p[c].contains_key(m) ==> p[c][m] != Set::<
            Seq<char>,
        >::empty()
}

/// Empty entries never arise: the memory stays as small as what is in flight.
pub proof fn law_no_empty_entries(
    p: Placed,
    channel: Seq<char>,
    message: Seq<char>,
    emoji: Seq<char>,
)
    requires
        no_empty_entries(p),
    ensures
        no_empty_entries(with_placed(p, channel, message, emoji)),
        no_empty_entries(without_message(p, channel, message)),
{
    let q = with_placed(p, channel, message, emoji);
    assert(q[channel].contains_key(message));
    assert(q[channel][message].contains(emoji));
}

/// Placing an emoji on a message that had none and clearing the message leaves
/// everything as it was.
pub proof fn law_clearing_undoes_recording(
    p: Placed,
    channel: Seq<char>,
    message: Seq<char>,
    emoji: Seq<char>,
)
    requires
        no_empty_entries(p),
        !in_channel(p, channel).contains_key(message),
    ensures
        without_message(with_placed(p, channel, message, emoji), channel, message) == p,
{
    let q = with_placed(p, channel, message, emoji);
    let m = in_channel(p, channel);
    assert(q[channel].remove(message) =~= m);
    assert(without_message(q, channel, message) =~= p);
}

/// `a` is newer than `b`: both are 64-bit numbers, and `a` is the larger.
pub open spec fn newer(a: Seq<char>, b: Seq<char>) -> bool {
    match (crate::text::parsed_u64(a), crate::text::parsed_u64(b)) {
        (Some(x), Some(y)) => x > y,
        _ => false,
    }
}

/// Whether the snowflake `candidate` is newer than `reference`. Snowflakes are
/// numbers whose high bits are a time, so they are compared as numbers.
pub fn is_newer_snowflake(candidate: &str, reference: &str) -> (r: bool)
    ensures
        r == newer(candidate@, reference@),
{
    match (parse_u64(candidate), parse_u64(reference)) {
        (Some(a), Some(b)) => a > b,
        _ => false,
    }
}

/// Being newer is a strict order.
pub proof fn law_newer_is_a_strict_order(a: Seq<char>, b: Seq<char>, c: Seq<char>)
    ensures
        !newer(a, a),
        newer(a, b) ==> !newer(b, a),
        newer(a, b) && newer(b, c) ==> newer(a, c),
{
}

/// Numbers compare as numbers, however long their notation is.
pub proof fn law_newer_compares_numbers(a: u64, b: u64)
    ensures
        newer(crate::text::decimal(a as nat), crate::text::decimal(b as nat)) <==> a > b,
{
    crate::text::law_printed_number_is_read_back(a);
    crate::text::law_printed_number_is_read_back(b);
}

/// The parts of the path of the state file: below the configuration directory
/// that is set, else below `.config` in the home directory that is set, else
/// in the working directory. An empty setting counts as none.
pub open spec fn state_path(xdg: Option<Seq<char>>, home: Option<Seq<char>>) -> Seq<Seq<char>> {
    match (xdg, home) {
        (Some(x), _) if x.len() > 0 => seq![x, "discord_to_insta"@, "state.json"@],
        (_, Some(h)) if h.len() > 0 => seq![h, ".config"@, "discord_to_insta"@, "state.json"@],
        _ => seq!["state.json"@],
    }
}

/// The parts of the path of the state file, where `xdg` and `home` are the
/// values of `XDG_CONFIG_HOME` and `HOME`.
pub fn default_path(xdg: &Option<String>, home: &Option<String>) -> (out: Vec<String>)
    ensures
        crate::strmap::texts(out@) == state_path(
            crate::json::opt_text(*xdg),
            crate::json::opt_text(*home),
        ),
{
    let ghost want = state_path(crate::json::opt_text(*xdg), crate::json::opt_text(*home));
    let mut out: Vec<String> = Vec::new();
    if let Some(x) = xdg {
        if !x.as_str().is_empty() {
            out.push(x.clone());
            out.push("discord_to_insta".to_string());
            out.push("state.json".to_string());
            assert(crate::strmap::texts(out@) =~= want);
            return out;
        }
    }
    if let Some(h) = home {
        if !h.as_str().is_empty() {
            out.push(h.clone());
            out.push(".config".to_string());
            out.push("discord_to_insta".to_string());
            out.push("state.json".to_string());
            assert(crate::strmap::texts(out@) =~= want);
            return out;
        }
    }
    out.push("state.json".to_string());
    assert(crate::strmap::texts(out@) =~= want);
    out
}

/// What is no number is neither newer nor older than anything.
pub proof fn law_only_numbers_are_newer(a: Seq<char>, b: Seq<char>)
    ensures
        crate::text::parsed_u64(a) is None ==> !newer(a, b) && !newer(b, a),
        crate::text::parsed_u64(a) is Some && crate::text::parsed_u64(b) is Some ==> (newer(a, b)
            <==> crate::text::parsed_u64(a)->0 > crate::text::parsed_u64(b)->0),
{
}

/// Where the state file is: below the configuration directory where that is set
/// and not empty, else below `.config` in the home directory where that is, else
/// in the working directory; always under the same name.
pub proof fn law_where_the_state_is(xdg: Option<Seq<char>>, home: Option<Seq<char>>)
    ensures
        state_path(xdg, home).last() == "state.json"@,
        xdg is Some && xdg->0.len() > 0 ==> state_path(xdg, home) == seq![
            xdg->0,
            "discord_to_insta"@,
            "state.json"@,
        ],
        (xdg is None || xdg->0.len() == 0) && home is Some && home->0.len() > 0 ==> state_path(
            xdg,
            home,
        ) == seq![home->0, ".config"@, "discord_to_insta"@, "state.json"@],
        (xdg is None || xdg->0.len() == 0) && (home is None || home->0.len() == 0) ==> state_path(
            xdg,
            home,
        ) == seq!["state.json"@],
{
}

/// What is remembered is what the maps of the state hold, one for one.
pub proof fn law_what_is_remembered(s: AppState, c: Seq<char>, m: Seq<char>, e: Seq<char>)
    ensures
        s.last_reacted().contains_key(c) <==> s.last_reacted_by_channel@.contains_key(c),
        s.last_reacted().contains_key(c) ==> s.last_reacted()[c] == s.last_reacted_by_channel@[c]@,
        is_placed(s.placed(), c, m, e) <==> {
            &&& s.reactions_done_by_channel@.contains_key(c)
            &&& s.reactions_done_by_channel@[c]@.contains_key(m)
            &&& s.reactions_done_by_channel@[c]@[m]@.contains(e)
        },
{
}

} // verus!
