use discord_to_insta::calendar::{Date, DateTime};
use discord_to_insta::state::AppState;
use discord_to_insta::weekly_poll::{
    armed_line, due, french_month, has_posting_day, last_sunday_1800, mark_posted, polls_for,
    posted_line, presence_question, save_failed_line,
};

fn date(year: i32, month: u32, day: u32) -> Date {
    Date { year, month, day }
}

fn dt(y: i32, m: u32, d: u32, h: u32, min: u32) -> DateTime {
    DateTime { date: date(y, m, d), second: h * 3600 + min * 60 }
}

#[test]
fn presence_question_french_date() {
    // 2026-07-20 is a Monday.
    let monday = date(2026, 7, 20);
    assert_eq!(
        presence_question(monday),
        "Qui sera présent lundi 20 juillet 2026 ?"
    );
}

#[test]
fn presence_question_no_leading_zero() {
    let monday = date(2026, 8, 3);
    assert_eq!(
        presence_question(monday),
        "Qui sera présent lundi 3 août 2026 ?"
    );
}

#[test]
fn last_sunday_midweek_goes_back_to_sunday() {
    // Wednesday 2026-07-22 → Sunday 2026-07-19 18:00.
    assert_eq!(
        last_sunday_1800(dt(2026, 7, 22, 12, 0)),
        dt(2026, 7, 19, 18, 0)
    );
}

#[test]
fn last_sunday_before_1800_uses_previous_week() {
    // Sunday 2026-07-19 at 17:59 → previous Sunday 2026-07-12 18:00.
    assert_eq!(
        last_sunday_1800(dt(2026, 7, 19, 17, 59)),
        dt(2026, 7, 12, 18, 0)
    );
}

#[test]
fn last_sunday_at_1800_is_that_sunday() {
    assert_eq!(
        last_sunday_1800(dt(2026, 7, 19, 18, 0)),
        dt(2026, 7, 19, 18, 0)
    );
}

#[test]
fn monday_after_sunday() {
    let (presence, _) = polls_for(date(2026, 7, 19));
    assert_eq!(presence.question, presence_question(date(2026, 7, 20)));
}

#[test]
fn last_sunday_over_the_end_of_a_year_and_a_leap_day() {
    // 2026-01-01 is a Thursday, 2024-03-01 a Friday.
    assert_eq!(last_sunday_1800(dt(2026, 1, 1, 0, 0)), dt(2025, 12, 28, 18, 0));
    assert_eq!(last_sunday_1800(dt(2024, 3, 1, 0, 0)), dt(2024, 2, 25, 18, 0));
    assert_eq!(last_sunday_1800(dt(2024, 3, 3, 17, 0)), dt(2024, 2, 25, 18, 0));
}

#[test]
fn polls_are_due_for_a_day() {
    assert!(due(dt(2026, 7, 19, 17, 59), &None).is_none());
    let d = due(dt(2026, 7, 19, 18, 0), &None).expect("due");
    assert_eq!(d.sunday, date(2026, 7, 19));
    assert_eq!(d.date_key, "2026-07-19");
    assert!(due(dt(2026, 7, 20, 17, 59), &None).is_some());
    assert!(due(dt(2026, 7, 20, 18, 0), &None).is_none());
}

#[test]
fn polls_are_posted_once_per_sunday() {
    let mut last: Option<String> = None;
    let mut posted: Vec<String> = Vec::new();
    for day in 12..=27 {
        for hour in 0..24 {
            if let Some(d) = due(dt(2026, 7, day, hour, 0), &last) {
                last = Some(d.date_key.clone());
                posted.push(d.date_key);
            }
        }
    }
    assert_eq!(posted, vec!["2026-07-12", "2026-07-19", "2026-07-26"]);
}

#[test]
fn the_mark_of_another_sunday_does_not_count() {
    assert!(due(dt(2026, 7, 19, 19, 0), &Some("2026-07-12".to_string())).is_some());
    assert!(due(dt(2026, 7, 19, 19, 0), &Some("2026-07-19".to_string())).is_none());
}

#[test]
fn dates_outside_four_digits_are_written_with_a_sign() {
    let d = due(dt(10000, 1, 2, 18, 0), &None).expect("due");
    assert_eq!(d.date_key, "+10000-01-02");
    let d = due(dt(9999, 12, 26, 18, 0), &None).expect("due");
    assert_eq!(d.date_key, "9999-12-26");
    let d = due(dt(-5, 1, 1, 18, 0), &None).expect("due");
    assert_eq!(d.date_key, "-0005-01-01");
    let d = due(dt(999, 1, 6, 18, 0), &None).expect("due");
    assert_eq!(d.date_key, "0999-01-06");
}

#[test]
fn the_two_polls() {
    let (presence, roles) = polls_for(date(2026, 5, 31));
    assert_eq!(presence.question, "Qui sera présent lundi 1 juin 2026 ?");
    let labels: Vec<&str> = presence.answers.iter().map(|a| a.1.as_str()).collect();
    assert_eq!(labels, vec!["Présent", "Absent", "Ne sais pas encore", "En mode touriste"]);
    assert_eq!((presence.hours, presence.multiselect), (24, false));
    assert_eq!(
        roles.question,
        "Ceux/Celles présent•e•s, quel(s) rôles(s) êtes-vous prêt•e à remplir ?"
    );
    let emojis: Vec<&str> = roles.answers.iter().map(|a| a.0.as_str()).collect();
    assert_eq!(emojis, vec!["🚂", "⚔️", "🔚"]);
    assert_eq!((roles.hours, roles.multiselect), (24, true));
}

#[test]
fn months_in_french() {
    let all: Vec<&str> = (1..=12).map(french_month).collect();
    assert_eq!(
        all,
        vec![
            "janvier", "février", "mars", "avril", "mai", "juin", "juillet", "août", "septembre",
            "octobre", "novembre", "décembre",
        ]
    );
}

#[test]
fn weekly_poll_lines() {
    assert_eq!(armed_line("42"), "weekly-poll: armed for channel 42");
    assert_eq!(posted_line("Q ?", &None), "weekly-poll: posted « Q ? »");
    assert_eq!(
        posted_line("Q ?", &Some("403".to_string())),
        "weekly-poll: post failed for « Q ? »: 403"
    );
    assert_eq!(save_failed_line("disk"), "weekly-poll: state save failed: disk");
}

#[test]
fn the_mark_keeps_polls_from_going_out_twice() {
    let now = dt(2026, 7, 19, 18, 5);
    let mut state = AppState::default();
    state.set_last_seen("ch", "7");
    state.record_reaction("ch", "8", "✅");
    let d = due(now, &state.last_weekly_poll).expect("due");
    mark_posted(&mut state, &d);
    assert_eq!(state.last_weekly_poll, Some("2026-07-19".to_string()));
    assert_eq!(state.last_seen("ch"), Some("7".to_string()));
    assert!(state.has_reacted("ch", "8", "✅"));
    assert!(due(now, &state.last_weekly_poll).is_none());
    assert!(due(dt(2026, 7, 26, 18, 0), &state.last_weekly_poll).is_some());
}

#[test]
fn the_first_days_have_no_posting_day() {
    // -262143-01-01 is a Thursday.
    assert!(!has_posting_day(dt(-262143, 1, 1, 12, 0)));
    assert!(!has_posting_day(dt(-262143, 1, 4, 17, 59)));
    assert!(has_posting_day(dt(-262143, 1, 4, 18, 0)));
    assert!(has_posting_day(dt(2026, 7, 19, 17, 59)));
}
