//! The weekly attendance polls: two polls go out once for every Sunday at
//! 18:00, or up to 24 hours later when that moment was missed.

use vstd::prelude::*;

use crate::calendar::{
    add_days, days_from_sunday, iso_date, seconds_between, Date, DateTime, FIRST_YEAR,
};
use crate::state::AppState;
use crate::text::{cat2, cat3, cat7, print_i64, print_u64, same};

verus! {

/// How long each poll accepts votes, in hours.
pub const POLL_DURATION_HOURS: u32 = 24;

/// How often the scheduler looks at the clock, in seconds.
pub const CHECK_INTERVAL_SECS: u64 = 60;

/// How many lines the scheduler's log keeps.
pub const LOG_MAX_LINES: usize = 40;

/// 18:00 in seconds since midnight.
pub const POSTING_SECOND: u32 = 64800;

/// How long after its moment a poll is still posted, in seconds.
pub const WINDOW_SECS: i64 = 86400;

/// What the second poll asks.
pub const ROLES_QUESTION: &'static str =
    "Ceux/Celles présent•e•s, quel(s) rôles(s) êtes-vous prêt•e à remplir ?";

/// Whether `t` is a Sunday at 18:00.
pub open spec fn is_posting_moment(t: DateTime) -> bool {
    t.valid() && t.date.number() % 7 == 0 && t.second == POSTING_SECOND
}

/// The number of the most recent Sunday whose 18:00 is not after `now`.
pub open spec fn posting_day(now: DateTime) -> int {
    let sunday = now.date.number() - now.date.number() % 7;
    if now.date.number() == sunday && now.second < POSTING_SECOND {
        sunday - 7
    } else {
        sunday
    }
}

/// Whether the most recent Sunday 18:00 at or before `now` can be represented.
pub fn has_posting_day(now: DateTime) -> (r: bool)
    requires
        now.valid(),
    ensures
        r == (crate::calendar::first_day() <= posting_day(now)),
{
    let first = DateTime { date: Date { year: FIRST_YEAR, month: 1, day: 1 }, second: 0 };
    let midnight = DateTime { date: now.date, second: 0 };
    let since_sunday = days_from_sunday(now.date);
    let back: i64 = if since_sunday == 0 && now.second < POSTING_SECOND {
        7
    } else {
        since_sunday as i64
    };
    seconds_between(midnight, first) >= 86400 * back
}

/// The most recent Sunday 18:00 at or before `now`.
pub fn last_sunday_1800(now: DateTime) -> (t: DateTime)
    requires
        now.valid(),
        crate::calendar::first_day() <= posting_day(now),
    ensures
        is_posting_moment(t),
        t.date.number() == posting_day(now),
        t.instant() <= now.instant() < t.instant() + 7 * 86400,
{
    proof {
        crate::calendar::lemma_within_range(now.date);
    }
    let back = days_from_sunday(now.date);
    let sunday = add_days(now.date, -(back as i64));
    let candidate = DateTime { date: sunday, second: POSTING_SECOND };
    let ahead = seconds_between(candidate, now) > 0;
    let t = if ahead {
        DateTime { date: add_days(sunday, -7), second: POSTING_SECOND }
    } else {
        candidate
    };
    t
}

/// The most recent Sunday 18:00 is one moment only.
pub proof fn law_posting_moment_is_one(now: DateTime, a: DateTime, b: DateTime)
    requires
        is_posting_moment(a),
        is_posting_moment(b),
        a.instant() <= now.instant() < a.instant() + 7 * 86400,
        b.instant() <= now.instant() < b.instant() + 7 * 86400,
    ensures
        a == b,
{
    crate::calendar::law_number_names_the_date(a.date, b.date);
}

/// The French name of a month.
pub open spec fn month_name(month: int) -> Seq<char> {
    if month == 1 {
        "janvier"@
    } else if month == 2 {
        "février"@
    } else if month == 3 {
        "mars"@
    } else if month == 4 {
        "avril"@
    } else if month == 5 {
        "mai"@
    } else if month == 6 {
        "juin"@
    } else if month == 7 {
        "juillet"@
    } else if month == 8 {
        "août"@
    } else if month == 9 {
        "septembre"@
    } else if month == 10 {
        "octobre"@
    } else if month == 11 {
        "novembre"@
    } else {
        "décembre"@
    }
}

/// The French name of a month.
pub fn french_month(month: u32) -> (name: &'static str)
    requires
        1 <= month <= 12,
    ensures
        name@ == month_name(month as int),
{
    match month {
        1 => "janvier",
        2 => "février",
        3 => "mars",
        4 => "avril",
        5 => "mai",
        6 => "juin",
        7 => "juillet",
        8 => "août",
        9 => "septembre",
        10 => "octobre",
        11 => "novembre",
        _ => "décembre",
    }
}

/// What the first poll asks, for the date of its Monday.
pub open spec fn presence_text(monday: Date) -> Seq<char> {
    "Qui sera présent lundi "@ + crate::text::decimal(monday.day as nat) + " "@ + month_name(
        monday.month as int,
    ) + " "@ + crate::text::signed_decimal(monday.year as int) + " ?"@
}

/// What the first poll asks, for the date of its Monday.
pub fn presence_question(monday: Date) -> (out: String)
    requires
        1 <= monday.month <= 12,
    ensures
        out@ == presence_text(monday),
        out@ == "Qui sera présent lundi "@ + crate::text::decimal(monday.day as nat) + " "@
            + month_name(monday.month as int) + " "@ + crate::text::signed_decimal(
            monday.year as int,
        ) + " ?"@,
{
    cat7(
        "Qui sera présent lundi ",
        print_u64(monday.day as u64).as_str(),
        " ",
        french_month(monday.month),
        " ",
        print_i64(monday.year as i64).as_str(),
        " ?",
    )
}

/// The Sunday whose polls are to be posted at `now`, where `last` is the date
/// that the polls were last posted for.
pub open spec fn is_due(now: DateTime, last: Option<Seq<char>>, sunday: Date) -> bool {
    &&& sunday.valid()
    &&& sunday.number() == posting_day(now)
    &&& now.instant() - (DateTime { date: sunday, second: POSTING_SECOND }).instant() < WINDOW_SECS
    &&& last != Some(crate::calendar::iso(sunday))
}

/// A Sunday whose polls are to be posted and the key under which that is
/// remembered.
pub struct Due {
    pub sunday: Date,
    pub date_key: String,
}

/// Decides whether polls are to be posted at `now`, where `last` is the date
/// that they were last posted for.
pub fn due(now: DateTime, last: &Option<String>) -> (r: Option<Due>)
    requires
        now.valid(),
        crate::calendar::first_day() <= posting_day(now),
    ensures
        match r {
            Some(d) => is_due(now, crate::json::opt_text(*last), d.sunday) && d.date_key@
                == crate::calendar::iso(d.sunday),
            None => forall|s: Date| !#[trigger] is_due(now, crate::json::opt_text(*last), s),
        },
{
    let target = last_sunday_1800(now);
    let ghost sunday = target.date;
    proof {
        assert forall|s: Date| #[trigger]
            is_due(now, crate::json::opt_text(*last), s) implies s == sunday by {
            crate::calendar::law_number_names_the_date(s, sunday);
        }
    }
    assert(target == DateTime { date: sunday, second: POSTING_SECOND });
    if seconds_between(now, target) >= WINDOW_SECS {
        return None;
    }
    let date_key = iso_date(target.date);
    let already = match last {
        Some(key) => same(key.as_str(), date_key.as_str()),
        None => false,
    };
    if already {
        None
    } else {
        Some(Due { sunday: target.date, date_key })
    }
}

/// Remembers that the polls of a Sunday were posted.
pub fn mark_posted(state: &mut AppState, due: &Due)
    ensures
        crate::json::opt_text(final(state).last_weekly_poll) == Some(due.date_key@),
        final(state).placed() == old(state).placed(),
        final(state).last_reacted() == old(state).last_reacted(),
{
    state.last_weekly_poll = Some(due.date_key.clone());
}

/// Once the polls of a Sunday are marked as posted, they are not due again,
/// at whatever time.
pub proof fn law_posted_once(now: DateTime, sunday: Date)
    requires
        sunday.valid(),
    ensures
        !is_due(now, Some(crate::calendar::iso(sunday)), sunday),
{
}

/// The Sundays that polls go out for when the scheduler looks at the clock at
/// each of `times`, starting from the mark `last`.
pub open spec fn posted_for(times: Seq<DateTime>, last: Option<Seq<char>>) -> Seq<Date>
    decreases times.len(),
{
    if times.len() == 0 {
        Seq::empty()
    } else {
        let earlier = posted_for(times.drop_last(), last);
        let mark = mark_after(earlier, last);
        if exists|s: Date| is_due(times.last(), mark, s) {
            earlier.push(choose|s: Date| is_due(times.last(), mark, s))
        } else {
            earlier
        }
    }
}

/// The mark once polls went out for `posted`, starting from the mark `last`.
pub open spec fn mark_after(posted: Seq<Date>, last: Option<Seq<char>>) -> Option<Seq<char>> {
    if posted.len() == 0 {
        last
    } else {
        Some(crate::calendar::iso(posted.last()))
    }
}

/// The clock never goes back over `times`.
pub open spec fn forward(times: Seq<DateTime>) -> bool {
    &&& forall|i: int| 0 <= i < times.len() ==> (#[trigger] times[i]).valid()
    &&& forall|i: int, j: int|
        0 <= i <= j < times.len() ==> (#[trigger] times[i]).instant() <= (
        #[trigger] times[j]).instant()
}

proof fn lemma_posting_day_grows(a: DateTime, b: DateTime)
    requires
        a.valid(),
        b.valid(),
        a.instant() <= b.instant(),
    ensures
        posting_day(a) <= posting_day(b),
{
}

/// However often the clock is looked at, polls go out at most once for each
/// Sunday, and for later Sundays later.
pub proof fn law_each_sunday_once(times: Seq<DateTime>, last: Option<Seq<char>>)
    requires
        forward(times),
    ensures
        forall|i: int, j: int|
            0 <= i < j < posted_for(times, last).len() ==> (#[trigger] posted_for(
                times,
                last,
            )[i]).number() < (#[trigger] posted_for(times, last)[j]).number(),
        forall|i: int|
            0 <= i < posted_for(times, last).len() ==> (#[trigger] posted_for(
                times,
                last,
            )[i]).valid(),
        posted_for(times, last).len() > 0 ==> posted_for(times, last).last().number()
            <= posting_day(times.last()),
        posted_for(times, last).len() <= times.len(),
    decreases times.len(),
{
    if times.len() > 0 {
        let before = times.drop_last();
        assert forall|i: int| 0 <= i < before.len() implies (#[trigger] before[i]).valid() by {
            assert(before[i] == times[i]);
        }
        assert forall|i: int, j: int| 0 <= i <= j < before.len() implies (
        #[trigger] before[i]).instant() <= (#[trigger] before[j]).instant() by {
            assert(before[i] == times[i] && before[j] == times[j]);
        }
        law_each_sunday_once(before, last);
        let earlier = posted_for(before, last);
        let mark = mark_after(earlier, last);
        let all = posted_for(times, last);
        let now = times.last();
        if before.len() > 0 {
            assert(before.last() == times[times.len() - 2]);
            assert(times[times.len() - 1] == now);
            lemma_posting_day_grows(before.last(), now);
        }
        if exists|s: Date| is_due(now, mark, s) {
            let s = choose|s: Date| is_due(now, mark, s);
            assert(all == earlier.push(s));
            if earlier.len() > 0 {
                let p = earlier.last();
                assert(p == earlier[earlier.len() - 1]);
                if p.number() == s.number() {
                    crate::calendar::law_number_names_the_date(p, s);
                }
            }
            assert forall|i: int, j: int| 0 <= i < j < all.len() implies (
            #[trigger] all[i]).number() < (#[trigger] all[j]).number() by {
                assert(all[i] == earlier[i]);
                if j < earlier.len() {
                    assert(all[j] == earlier[j]);
                } else {
                    assert(earlier[i].number() <= earlier[earlier.len() - 1].number());
                }
            }
        }
    }
}

/// The mark of one Sunday does not keep the polls of another from being posted.
pub proof fn law_other_sundays_stay_due(now: DateTime, marked: Date, sunday: Date)
    requires
        marked.valid(),
        is_due(now, None, sunday),
        sunday != marked,
    ensures
        is_due(now, Some(crate::calendar::iso(marked)), sunday),
{
    if crate::calendar::iso(marked) == crate::calendar::iso(sunday) {
        crate::calendar::law_iso_names_the_date(marked, sunday);
    }
}

/// Polls go out within 24 hours of a Sunday 18:00, and never before it.
pub proof fn law_due_within_a_day(now: DateTime, last: Option<Seq<char>>, sunday: Date)
    requires
        now.valid(),
        is_due(now, last, sunday),
    ensures
        sunday.number() % 7 == 0,
        0 <= now.instant() - (DateTime { date: sunday, second: POSTING_SECOND }).instant() < 86400,
{
}

/// A poll, with each answer as emoji and label.
pub struct Poll {
    pub question: String,
    pub answers: Vec<(String, String)>,
    pub hours: u32,
    pub multiselect: bool,
}

/// A poll with texts as characters.
pub struct PollModel {
    pub question: Seq<char>,
    pub answers: Seq<(Seq<char>, Seq<char>)>,
    pub hours: u32,
    pub multiselect: bool,
}

impl View for Poll {
    type V = PollModel;

    open spec fn view(&self) -> PollModel {
        PollModel {
            question: self.question@,
            answers: crate::moderation::pairs(self.answers@),
            hours: self.hours,
            multiselect: self.multiselect,
        }
    }
}

/// The answers to the first poll.
pub open spec fn presence_choices() -> Seq<(Seq<char>, Seq<char>)> {
    seq![
        ("✅"@, "Présent"@),
        ("🚫"@, "Absent"@),
        ("🤔"@, "Ne sais pas encore"@),
        ("😎"@, "En mode touriste"@),
    ]
}

/// The answers to the second poll.
pub open spec fn roles_choices() -> Seq<(Seq<char>, Seq<char>)> {
    seq![("🚂"@, "Guides"@), ("⚔️"@, "Encadrants/Bloquants"@), ("🔚"@, "Fermants"@)]
}

/// The answers to the first poll, of which one can be chosen.
pub fn presence_answers() -> (out: Vec<(String, String)>)
    ensures
        crate::moderation::pairs(out@) == presence_choices(),
        crate::moderation::pairs(out@) == seq![
            ("✅"@, "Présent"@),
            ("🚫"@, "Absent"@),
            ("🤔"@, "Ne sais pas encore"@),
            ("😎"@, "En mode touriste"@),
        ],
{
    let mut out: Vec<(String, String)> = Vec::new();
    out.push(("✅".to_string(), "Présent".to_string()));
    out.push(("🚫".to_string(), "Absent".to_string()));
    out.push(("🤔".to_string(), "Ne sais pas encore".to_string()));
    out.push(("😎".to_string(), "En mode touriste".to_string()));
    assert(crate::moderation::pairs(out@) =~= presence_choices());
    out
}

/// The answers to the second poll, of which several can be chosen.
pub fn roles_answers() -> (out: Vec<(String, String)>)
    ensures
        crate::moderation::pairs(out@) == roles_choices(),
        crate::moderation::pairs(out@) == seq![
            ("🚂"@, "Guides"@),
            ("⚔️"@, "Encadrants/Bloquants"@),
            ("🔚"@, "Fermants"@),
        ],
{
    let mut out: Vec<(String, String)> = Vec::new();
    out.push(("🚂".to_string(), "Guides".to_string()));
    out.push(("⚔️".to_string(), "Encadrants/Bloquants".to_string()));
    out.push(("🔚".to_string(), "Fermants".to_string()));
    assert(crate::moderation::pairs(out@) =~= roles_choices());
    out
}

/// The two polls that go out for a Sunday: who comes on the Monday after it,
/// and in which roles.
pub fn polls_for(sunday: Date) -> (out: (Poll, Poll))
    requires
        sunday.valid(),
        sunday.number() < crate::calendar::last_day(),
    ensures
        exists|monday: Date| #[trigger]
            monday.valid() && monday.number() == sunday.number() + 1 && out.0@ == (PollModel {
                question: presence_text(monday),
                answers: presence_choices(),
                hours: 24,
                multiselect: false,
            }),
        out.1@ == (PollModel {
            question: ROLES_QUESTION@,
            answers: roles_choices(),
            hours: 24,
            multiselect: true,
        }),
        out.0@.answers == seq![
            ("✅"@, "Présent"@),
            ("🚫"@, "Absent"@),
            ("🤔"@, "Ne sais pas encore"@),
            ("😎"@, "En mode touriste"@),
        ],
        out.1@.question
            == "Ceux/Celles présent•e•s, quel(s) rôles(s) êtes-vous prêt•e à remplir ?"@,
        out.1@.answers == seq![
            ("🚂"@, "Guides"@),
            ("⚔️"@, "Encadrants/Bloquants"@),
            ("🔚"@, "Fermants"@),
        ],
{
    proof {
        crate::calendar::lemma_within_range(sunday);
    }
    let monday = add_days(sunday, 1);
    let first = Poll {
        question: presence_question(monday),
        answers: presence_answers(),
        hours: POLL_DURATION_HOURS,
        multiselect: false,
    };
    let second = Poll {
        question: ROLES_QUESTION.to_string(),
        answers: roles_answers(),
        hours: POLL_DURATION_HOURS,
        multiselect: true,
    };
    assert(monday.valid());
    (first, second)
}

/// The day after a Sunday is a Monday.
pub proof fn law_monday_follows(sunday: Date, monday: Date)
    requires
        sunday.number() % 7 == 0,
        monday.number() == sunday.number() + 1,
    ensures
        monday.number() % 7 == 1,
{
}

/// What the log says when the scheduler starts.
pub fn armed_line(channel_id: &str) -> (out: String)
    ensures
        out@ == "weekly-poll: armed for channel "@ + channel_id@,
{
    cat2("weekly-poll: armed for channel ", channel_id)
}

/// What the log says of a poll that was sent or refused.
pub open spec fn posted_text(question: Seq<char>, error: Option<Seq<char>>) -> Seq<char> {
    match error {
        None => "weekly-poll: posted « "@ + question + " »"@,
        Some(e) => "weekly-poll: post failed for « "@ + question + " »: "@ + e,
    }
}

/// What the log says of a poll that was sent or refused.
pub fn posted_line(question: &str, error: &Option<String>) -> (out: String)
    ensures
        out@ == posted_text(question@, crate::json::opt_text(*error)),
{
    match error {
        None => cat3("weekly-poll: posted « ", question, " »"),
        Some(e) => {
            let head = cat3("weekly-poll: post failed for « ", question, " »: ");
            cat2(head.as_str(), e.as_str())
        },
    }
}

/// What the log says when the mark of a posted Sunday could not be saved.
pub fn save_failed_line(error: &str) -> (out: String)
    ensures
        out@ == "weekly-poll: state save failed: "@ + error@,
{
    cat2("weekly-poll: state save failed: ", error)
}

/// The months have their French names, in the order of the year.
pub proof fn law_month_names(month: int)
    requires
        1 <= month <= 12,
    ensures
        month_name(month) == seq![
            "janvier"@,
            "février"@,
            "mars"@,
            "avril"@,
            "mai"@,
            "juin"@,
            "juillet"@,
            "août"@,
            "septembre"@,
            "octobre"@,
            "novembre"@,
            "décembre"@,
        ][month - 1],
{
}

/// The polls of a day are due exactly when it is a Sunday, its 18:00 has come
/// and is less than 24 hours ago, and it is not the day that is marked as posted.
pub proof fn law_when_due(now: DateTime, last: Option<Seq<char>>, sunday: Date)
    requires
        now.valid(),
        sunday.valid(),
    ensures
        is_due(now, last, sunday) <==> {
            let since = now.instant() - (86400 * sunday.number() + 18 * 3600);
            &&& sunday.number() % 7 == 0
            &&& 0 <= since < 24 * 3600
            &&& last != Some(crate::calendar::iso(sunday))
        },
{
}

/// The moment that is looked for is the last Sunday 18:00 that is not after now:
/// the day is a Sunday, it has come, and the next one has not.
pub proof fn law_posting_day(now: DateTime)
    requires
        now.valid(),
    ensures
        posting_day(now) % 7 == 0,
        86400 * posting_day(now) + 18 * 3600 <= now.instant() < 86400 * (posting_day(now) + 7) + 18
            * 3600,
{
}

/// Each answer stands next to its own emoji: the first poll is about coming, the
/// second about the roles.
pub proof fn law_answers_and_their_emojis()
    ensures
        presence_choices() == seq![
            ("✅"@, "Présent"@),
            ("🚫"@, "Absent"@),
            ("🤔"@, "Ne sais pas encore"@),
            ("😎"@, "En mode touriste"@),
        ],
        roles_choices() == seq![
            ("🚂"@, "Guides"@),
            ("⚔️"@, "Encadrants/Bloquants"@),
            ("🔚"@, "Fermants"@),
        ],
{
}

/// What the log says of a poll: its question, and the error where it was refused.
pub proof fn law_words_of_the_log(question: Seq<char>, e: Seq<char>)
    ensures
        posted_text(question, None) == "weekly-poll: posted « "@ + question + " »"@,
        posted_text(question, Some(e)) == "weekly-poll: post failed for « "@ + question + " »: "@
            + e,
{
}

/// The fixed values of the scheduler.
pub proof fn law_fixed_values()
    ensures
        POLL_DURATION_HOURS == 24,
        CHECK_INTERVAL_SECS == 60,
        LOG_MAX_LINES == 40,
        POSTING_SECOND == 18 * 3600,
        WINDOW_SECS == 24 * 3600,
{
}

/// The model of a poll holds all that the value holds, its texts as characters.
pub proof fn law_model_of_poll(x: Poll)
    ensures
        x@ == (PollModel {
            question: x.question@,
            answers: crate::moderation::pairs(x.answers@),
            hours: x.hours,
            multiselect: x.multiselect,
        }),
{
}

} // verus!
