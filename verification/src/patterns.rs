//! The regular expressions of the library and the four ways it applies them.
//!
//! What an expression matches in a text is the regex engine's business and has
//! a name here, [`regex_matches`]; what the library makes of the matches is
//! stated over that name.

use regex::Regex;
use vstd::prelude::*;

use crate::strmap::StrMap;

verus! {

/// `@everyone` and `@here`.
pub const EVERYONE: &'static str = r"@everyone\b|@here\b";

/// A user mention; the group is the user's id.
pub const USER_MENTION: &'static str = r"<@!?(\d+)>";

/// A channel mention.
pub const CHANNEL_MENTION: &'static str = r"<#(\d+)>";

/// A role mention.
pub const ROLE_MENTION: &'static str = r"<@&(\d+)>";

/// Discord's relative time ("1d", "2h", "5m", "30s", "3w") on a line of its own
/// at the end.
pub const TRAILING_TIMESTAMP: &'static str = r"\n\s*\d+\s*[smhdw]\s*$";

/// A custom emoji, animated or not; the group is its name.
pub const CUSTOM_EMOJI: &'static str = r"<a?:([A-Za-z0-9_]+):\d+>";

/// A fenced code block; the group is the code.
pub const CODE_FENCE: &'static str = r"(?s)```(?:[A-Za-z0-9_+-]*\n)?(.*?)\n?```";

/// Inline code.
pub const CODE_INLINE: &'static str = r"`([^`\n]+)`";

/// Bold text.
pub const BOLD: &'static str = r"\*\*([^\n]+?)\*\*";

/// Underlined text.
pub const UNDERLINE: &'static str = r"__([^\n]+?)__";

/// Italic text between stars.
pub const ITALIC_STAR: &'static str = r"\*([^\n\*]+?)\*";

/// Struck text.
pub const STRIKE: &'static str = r"~~([^\n]+?)~~";

/// A spoiler.
pub const SPOILER: &'static str = r"\|\|([^\n]+?)\|\|";

/// The mark of a heading, of subtext or of a quotation at the start of a line;
/// the group is the line feed behind a mark that stands alone.
pub const LINE_PREFIX: &'static str =
    r"(?m)^[^\S\n]*(?:(?:#{1,3}|-#)(?:[^\S\n]+|(\n))|>>>[^\S\n]?|>[^\S\n]?)";

/// A link in angle brackets; the group is the link.
pub const BRACKET_URL: &'static str = r"<(https?://[^\s>]+)>";

/// A distance in kilometers; the group is the number.
pub const DISTANCE: &'static str = r"(?i)distance\s*[:=]\s*(\d+(?:[.,]\d+)?)\s*km";

/// A Discord invite link; the group is the invite code.
pub const INVITE: &'static str =
    r"(?i)\b(?:discord(?:app)?\.com/invite|discord\.gg)/([A-Za-z0-9-]+)";

/// The expressions above, which all compile.
pub open spec fn is_pattern(p: Seq<char>) -> bool {
    ||| p == EVERYONE@
    ||| p == USER_MENTION@
    ||| p == CHANNEL_MENTION@
    ||| p == ROLE_MENTION@
    ||| p == TRAILING_TIMESTAMP@
    ||| p == CUSTOM_EMOJI@
    ||| p == CODE_FENCE@
    ||| p == CODE_INLINE@
    ||| p == BOLD@
    ||| p == UNDERLINE@
    ||| p == ITALIC_STAR@
    ||| p == STRIKE@
    ||| p == SPOILER@
    ||| p == LINE_PREFIX@
    ||| p == BRACKET_URL@
    ||| p == DISTANCE@
    ||| p == INVITE@
}

/// The successive non-overlapping matches of the expression `pattern` in
/// `text`, from left to right: for each the text between the match before it
/// (or the start) and this match, the match itself, and what the expression's
/// first group matched in it, which is empty where there is no such group.
pub uninterp spec fn regex_matches(pattern: Seq<char>, text: Seq<char>) -> Seq<(Seq<char>, Seq<char>, Seq<char>)>;

/// What is written in the place of a match.
pub enum Rule<'a> {
    /// The same text for every match.
    Fixed(&'a str),
    /// What the group matched.
    Group,
    /// What the group matched, between colons.
    Colons,
    /// `@` and the handle that the map holds for what the group matched, or
    /// nothing where it holds none.
    Handle(&'a StrMap<String>),
    /// `@` where the map holds a handle for what the group matched, or nothing
    /// where it holds none.
    Sign(&'a StrMap<String>),
}

impl<'a> Rule<'a> {
    /// The text for a match whose group matched `group`.
    pub open spec fn written(self, group: Seq<char>) -> Seq<char> {
        match self {
            Rule::Fixed(t) => t@,
            Rule::Group => group,
            Rule::Colons => seq![':'] + group + seq![':'],
            Rule::Handle(map) => if map@.contains_key(group) {
                seq!['@'] + map@[group]@
            } else {
                Seq::empty()
            },
            Rule::Sign(map) => if map@.contains_key(group) {
                seq!['@']
            } else {
                Seq::empty()
            },
        }
    }

    /// The text for a match whose group matched `group`.
    pub fn write(&self, group: &str) -> (out: String)
        ensures
            out@ == self.written(group@),
    {
        match self {
            Rule::Fixed(t) => (*t).to_string(),
            Rule::Group => group.to_string(),
            Rule::Colons => {
                let mut out = String::new();
                out.push(':');
                out.append(group);
                out.push(':');
                assert(out@ =~= self.written(group@));
                out
            },
            Rule::Handle(map) => match map.get(group) {
                Some(handle) => {
                    let mut out = String::new();
                    out.push('@');
                    out.append(handle.as_str());
                    assert(out@ =~= self.written(group@));
                    out
                },
                None => String::new(),
            },
            Rule::Sign(map) => {
                let mut out = String::new();
                if map.contains_key(group) {
                    out.push('@');
                }
                assert(out@ =~= self.written(group@));
                out
            },
        }
    }
}

/// `text` with the matches `ms` replaced according to `rule`.
pub open spec fn substituted(
    ms: Seq<(Seq<char>, Seq<char>, Seq<char>)>,
    text: Seq<char>,
    rule: Rule,
) -> Seq<char>
    decreases ms.len(),
{
    if ms.len() == 0 {
        text
    } else {
        ms[0].0 + rule.written(ms[0].2) + substituted(
            ms.drop_first(),
            text.skip((ms[0].0.len() + ms[0].1.len()) as int),
            rule,
        )
    }
}

/// `text` with every match of `pattern` replaced according to `rule`.
pub open spec fn all_replaced(pattern: Seq<char>, text: Seq<char>, rule: Rule) -> Seq<char> {
    substituted(regex_matches(pattern, text), text, rule)
}

/// `text` with the first match of `pattern`, if any, replaced according to
/// `rule`.
pub open spec fn first_replaced(pattern: Seq<char>, text: Seq<char>, rule: Rule) -> Seq<char> {
    let ms = regex_matches(pattern, text);
    if ms.len() == 0 {
        text
    } else {
        substituted(ms.take(1), text, rule)
    }
}

/// Calls `Regex::replace_all` with the replacement `rule.write` of the first
/// group. Claimed: every one of the successive matches is replaced, and the
/// text between and behind them is kept.
#[verifier::external_body]
pub(crate) fn replace_all(pattern: &str, text: &str, rule: &Rule) -> (out: String)
    requires
        is_pattern(pattern@),
    ensures
        out@ == all_replaced(pattern@, text@, *rule),
{
    let re = Regex::new(pattern).expect("the expression compiles");
    re.replace_all(text, |c: &regex::Captures| rule.write(c.get(1).map_or("", |m| m.as_str())))
        .into_owned()
}

/// Calls `Regex::replace` with the replacement `rule.write` of the first
/// group. Claimed: the first match is replaced, and the rest of the text is
/// kept.
#[verifier::external_body]
pub(crate) fn replace_first(pattern: &str, text: &str, rule: &Rule) -> (out: String)
    requires
        is_pattern(pattern@),
    ensures
        out@ == first_replaced(pattern@, text@, *rule),
{
    let re = Regex::new(pattern).expect("the expression compiles");
    re.replace(text, |c: &regex::Captures| rule.write(c.get(1).map_or("", |m| m.as_str())))
        .into_owned()
}

/// Calls `Regex::captures`. Claimed: where the expression matches, the result
/// is what the first group matched in the first match.
#[verifier::external_body]
pub(crate) fn first_group(pattern: &str, text: &str) -> (out: Option<String>)
    requires
        is_pattern(pattern@),
    ensures
        match out {
            Some(g) => regex_matches(pattern@, text@).len() > 0 && g@ == regex_matches(
                pattern@,
                text@,
            )[0].2,
            None => regex_matches(pattern@, text@).len() == 0,
        },
{
    let re = Regex::new(pattern).expect("the expression compiles");
    re.captures(text).map(|c| c.get(1).map_or("", |m| m.as_str()).to_string())
}

/// Calls `Regex::captures_iter`. Claimed: the result is what the first group
/// matched in each of the successive matches.
#[verifier::external_body]
pub(crate) fn all_groups(pattern: &str, text: &str) -> (out: Vec<String>)
    requires
        is_pattern(pattern@),
    ensures
        crate::strmap::texts(out@) == regex_matches(pattern@, text@).map_values(
            |m: (Seq<char>, Seq<char>, Seq<char>)| m.2,
        ),
{
    let re = Regex::new(pattern).expect("the expression compiles");
    re.captures_iter(text).map(|c| c.get(1).map_or("", |m| m.as_str()).to_string()).collect()
}

/// The expressions as the regex engine gets them.
pub proof fn law_expressions()
    ensures
        EVERYONE@ == r"@everyone\b|@here\b"@,
        USER_MENTION@ == r"<@!?(\d+)>"@,
        CHANNEL_MENTION@ == r"<#(\d+)>"@,
        ROLE_MENTION@ == r"<@&(\d+)>"@,
        TRAILING_TIMESTAMP@ == r"\n\s*\d+\s*[smhdw]\s*$"@,
        CUSTOM_EMOJI@ == r"<a?:([A-Za-z0-9_]+):\d+>"@,
        CODE_FENCE@ == r"(?s)```(?:[A-Za-z0-9_+-]*\n)?(.*?)\n?```"@,
        CODE_INLINE@ == r"`([^`\n]+)`"@,
        BOLD@ == r"\*\*([^\n]+?)\*\*"@,
        UNDERLINE@ == r"__([^\n]+?)__"@,
        ITALIC_STAR@ == r"\*([^\n\*]+?)\*"@,
        STRIKE@ == r"~~([^\n]+?)~~"@,
        SPOILER@ == r"\|\|([^\n]+?)\|\|"@,
        LINE_PREFIX@ == r"(?m)^[^\S\n]*(?:(?:#{1,3}|-#)(?:[^\S\n]+|(\n))|>>>[^\S\n]?|>[^\S\n]?)"@,
        BRACKET_URL@ == r"<(https?://[^\s>]+)>"@,
        DISTANCE@ == r"(?i)distance\s*[:=]\s*(\d+(?:[.,]\d+)?)\s*km"@,
        INVITE@ == r"(?i)\b(?:discord(?:app)?\.com/invite|discord\.gg)/([A-Za-z0-9-]+)"@,
{
}

/// What is written for a match: a fixed text whatever the group matched, the
/// group's match as it is or between colons, and for a mention the handle behind
/// `@`, or `@` alone, where the map holds one and nothing where it holds none.
pub proof fn law_what_is_written(fixed: &str, map: &StrMap<String>, group: Seq<char>)
    ensures
        Rule::Fixed(fixed).written(group) == fixed@,
        Rule::Group.written(group) == group,
        Rule::Colons.written(group) == seq![':'] + group + seq![':'],
        map@.contains_key(group) ==> Rule::Handle(map).written(group) == seq!['@']
            + map@[group]@ && Rule::Sign(map).written(group) == seq!['@'],
        !map@.contains_key(group) ==> Rule::Handle(map).written(group).len() == 0 && Rule::Sign(
            map,
        ).written(group).len() == 0,
{
}

} // verus!
