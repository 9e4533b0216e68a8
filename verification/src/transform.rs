//! Discord announcement text turned into an Instagram caption.

use vstd::prelude::*;

use crate::patterns::{
    replace_all, replace_first, Rule, BOLD, BRACKET_URL, CHANNEL_MENTION, CODE_FENCE, CODE_INLINE,
    CUSTOM_EMOJI, EVERYONE, ITALIC_STAR, LINE_PREFIX, ROLE_MENTION, SPOILER, STRIKE,
    TRAILING_TIMESTAMP, UNDERLINE, USER_MENTION,
};
use crate::strmap::StrMap;
use crate::text::{
    chars_of, normalize_newlines, starts_with, strip_left, strip_right, take_before, text_of, trim,
    Class,
};

verus! {

/// What channel and role mentions become.
pub const BIO_POINTER: &'static str = "voir Discord (lien en bio)";

/// The lines of `text` from index `i` on, each with the index where it starts
/// and without its line feed.
pub open spec fn lines_from(text: Seq<char>, i: int) -> Seq<(int, Seq<char>)>
    decreases text.len() + 1 - i,
{
    if i < 0 || i >= text.len() {
        Seq::empty()
    } else {
        let line = crate::text::before(text.skip(i), '\n');
        proof {
            crate::text::lemma_first_index(text.skip(i), '\n');
        }
        seq![(i, line)] + lines_from(text, i + line.len() + 1)
    }
}

/// The lines of a text with the index where each starts.
pub fn line_offsets(text: &[char]) -> (out: Vec<(usize, Vec<char>)>)
    ensures
        out@.map_values(|l: (usize, Vec<char>)| (l.0 as int, l.1@)) == lines_from(text@, 0),
{
    let mut out: Vec<(usize, Vec<char>)> = Vec::new();
    let ghost view = |l: (usize, Vec<char>)| (l.0 as int, l.1@);
    let mut i: usize = 0;
    while i < text.len()
        invariant
            i <= text.len() + 1,
            view == (|l: (usize, Vec<char>)| (l.0 as int, l.1@)),
            out@.map_values(view) + lines_from(text@, i as int) == lines_from(text@, 0),
        decreases text.len() + 1 - i,
    {
        let rest = vstd::slice::slice_subrange(text, i, text.len());
        let line = take_before(rest, '\n');
        proof {
            assert(rest@ == text@.skip(i as int));
            crate::text::lemma_first_index(rest@, '\n');
        }
        let owned = slice_to_vec(line);
        let ghost earlier = out@;
        out.push((i, owned));
        proof {
            assert(out@.map_values(view) =~= earlier.map_values(view).push((i as int, line@)));
            assert(out@.map_values(view) + lines_from(text@, i + line@.len() + 1)
                =~= earlier.map_values(view) + lines_from(text@, i as int));
        }
        i = i + line.len();
        if i < text.len() {
            i += 1;
        } else {
            assert(lines_from(text@, i as int) =~= lines_from(text@, i + 1));
        }
    }
    assert(lines_from(text@, i as int) =~= Seq::<(int, Seq<char>)>::empty());
    assert(out@.map_values(view) =~= lines_from(text@, 0));
    out
}

fn slice_to_vec(s: &[char]) -> (out: Vec<char>)
    ensures
        out@ == s@,
{
    let mut out: Vec<char> = Vec::new();
    let mut i: usize = 0;
    while i < s.len()
        invariant
            i <= s.len(),
            out@ == s@.take(i as int),
        decreases s.len() - i,
    {
        out.push(s[i]);
        i += 1;
        assert(s@.take(i as int) == s@.take(i - 1).push(s@[i - 1]));
    }
    assert(s@.take(i as int) == s@);
    out
}

/// Whether `s` begins with `word`, optional white space and a colon.
pub open spec fn begins_section(s: Seq<char>, word: Seq<char>) -> bool {
    let rest = crate::text::left_stripped(s.skip(word.len() as int), Class::White);
    word.is_prefix_of(s) && rest.len() > 0 && rest[0] == ':'
}

/// A line that opens the reactions trailer: but for white space at its ends it
/// begins with "Réactions" or "Reactions", optional white space and a colon, and
/// ends with a colon, which may be the same.
pub open spec fn is_reactions_line(line: Seq<char>) -> bool {
    let t = crate::text::trimmed(line);
    t.len() > 0 && t.last() == ':' && (begins_section(t, "Réactions"@) || begins_section(
        t,
        "Reactions"@,
    ))
}

fn opens_section(s: &[char], word: &str) -> (r: bool)
    ensures
        r == begins_section(s@, word@),
{
    let w = chars_of(word);
    if !starts_with(s, w.as_slice()) {
        return false;
    }
    let tail = vstd::slice::slice_subrange(s, w.len(), s.len());
    assert(tail@ =~= s@.skip(word@.len() as int));
    let rest = strip_left(tail, Class::White);
    rest.len() > 0 && rest[0] == ':'
}

/// Whether a line opens the reactions trailer.
pub fn opens_reactions(line: &[char]) -> (r: bool)
    ensures
        r == is_reactions_line(line@),
{
    let t = trim(line);
    t.len() > 0 && t[t.len() - 1] == ':' && (opens_section(t, "Réactions") || opens_section(
        t,
        "Reactions",
    ))
}

/// The index of the first of `lines` that opens the reactions trailer.
pub open spec fn reactions_line(lines: Seq<(int, Seq<char>)>) -> Option<int>
    decreases lines.len(),
{
    if lines.len() == 0 {
        None
    } else if is_reactions_line(lines[0].1) {
        Some(lines[0].0)
    } else {
        reactions_line(lines.drop_first())
    }
}

/// Where the text is cut before the reactions trailer: behind the last
/// character before that line which is neither a line feed nor a space.
pub open spec fn reactions_cut(text: Seq<char>) -> Option<int> {
    match reactions_line(lines_from(text, 0)) {
        Some(start) => Some(
            crate::text::right_stripped(text.take(start), Class::LineEnd).len() as int,
        ),
        None => None,
    }
}

/// Finds where to cut the reactions trailer off.
pub fn find_reactions_block(text: &[char]) -> (r: Option<usize>)
    ensures
        r is Some == reactions_cut(text@) is Some,
        r is Some ==> r->0 == reactions_cut(text@)->0 && r->0 <= text.len(),
{
    let lines = line_offsets(text);
    let ghost view = |l: (usize, Vec<char>)| (l.0 as int, l.1@);
    let ghost all = lines_from(text@, 0);
    proof {
        lemma_line_starts(text@, 0);
        assert(all.skip(0) == all);
    }
    let mut k: usize = 0;
    while k < lines.len()
        invariant
            k <= lines.len(),
            view == (|l: (usize, Vec<char>)| (l.0 as int, l.1@)),
            lines@.map_values(view) == all,
            all == lines_from(text@, 0),
            forall|j: int| 0 <= j < all.len() ==> 0 <= (#[trigger] all[j]).0 <= text@.len(),
            reactions_line(all.skip(k as int)) == reactions_line(all),
        decreases lines.len() - k,
    {
        assert(all[k as int] == (lines@[k as int].0 as int, lines@[k as int].1@));
        assert(all.skip(k as int).drop_first() == all.skip(k + 1));
        if opens_reactions(lines[k].1.as_slice()) {
            let head = vstd::slice::slice_subrange(text, 0, lines[k].0);
            assert(head@ == text@.take(lines@[k as int].0 as int));
            let kept = strip_right(head, Class::LineEnd);
            proof {
                crate::text::lemma_right_stripped(head@, Class::LineEnd);
            }
            return Some(kept.len());
        }
        k += 1;
    }
    None
}

proof fn lemma_line_starts(text: Seq<char>, i: int)
    requires
        0 <= i,
    ensures
        forall|j: int|
            0 <= j < lines_from(text, i).len() ==> i <= (#[trigger] lines_from(text, i)[j]).0
                < text.len(),
    decreases text.len() + 1 - i,
{
    if i < text.len() {
        let line = crate::text::before(text.skip(i), '\n');
        crate::text::lemma_first_index(text.skip(i), '\n');
        lemma_line_starts(text, i + line.len() + 1);
        let rest = lines_from(text, i + line.len() + 1);
        assert forall|j: int| 0 <= j < lines_from(text, i).len() implies i <= (
        #[trigger] lines_from(text, i)[j]).0 < text.len() by {
            if j > 0 {
                assert(lines_from(text, i)[j] == rest[j - 1]);
            }
        }
    }
}

/// A space or a tab.
pub open spec fn is_blank(c: char) -> bool {
    c == ' ' || c == '\t'
}

/// `s` with each run of spaces and tabs written as one space.
pub open spec fn spaced(s: Seq<char>) -> Seq<char>
    decreases s.len(),
{
    if s.len() == 0 {
        Seq::empty()
    } else if !is_blank(s.last()) {
        spaced(s.drop_last()).push(s.last())
    } else if s.len() > 1 && is_blank(s[s.len() - 2]) {
        spaced(s.drop_last())
    } else {
        spaced(s.drop_last()).push(' ')
    }
}

/// Writes each run of spaces and tabs as one space; line feeds stay.
pub fn single_space(s: &[char]) -> (out: Vec<char>)
    ensures
        out@ == spaced(s@),
{
    let mut out: Vec<char> = Vec::new();
    let mut i: usize = 0;
    while i < s.len()
        invariant
            i <= s.len(),
            out@ == spaced(s@.take(i as int)),
        decreases s.len() - i,
    {
        let c = s[i];
        let ghost read = s@.take(i + 1);
        assert(read.drop_last() == s@.take(i as int));
        if c != ' ' && c != '\t' {
            out.push(c);
        } else if i == 0 || (s[i - 1] != ' ' && s[i - 1] != '\t') {
            assert(i > 0 ==> read[i - 1] == s@[i - 1]);
            out.push(' ');
        } else {
            assert(read[i - 1] == s@[i - 1]);
        }
        i += 1;
    }
    assert(s@.take(i as int) == s@);
    out
}

/// `text` with each of its lines `l` written as `f(l)`.
pub open spec fn by_line(text: Seq<char>, f: spec_fn(Seq<char>) -> Seq<char>) -> Seq<char>
    decreases text.len(),
{
    let line = crate::text::before(text, '\n');
    proof {
        crate::text::lemma_first_index(text, '\n');
    }
    if line.len() == text.len() {
        f(text)
    } else {
        f(line) + seq!['\n'] + by_line(text.skip(line.len() as int + 1), f)
    }
}

/// The number of blanks before the semicolon that ends the line `l`, or zero
/// where none ends it.
pub open spec fn closing_run(l: Seq<char>) -> int {
    if l.len() > 0 && l.last() == ';' {
        l.len() - 1 - crate::text::right_stripped(l.drop_last(), Class::Blank).len()
    } else {
        0
    }
}

/// The line `l` without a semicolon at its end that stands behind two or more
/// blanks, and without those blanks.
pub open spec fn undangled(l: Seq<char>) -> Seq<char> {
    if closing_run(l) >= 2 {
        crate::text::right_stripped(l.drop_last(), Class::Blank)
    } else {
        l
    }
}

/// Counts the blanks before the semicolon that ends a line.
pub fn closing_blanks(l: &[char]) -> (n: usize)
    ensures
        n == closing_run(l@),
{
    if l.len() == 0 || l[l.len() - 1] != ';' {
        return 0;
    }
    let head = vstd::slice::slice_subrange(l, 0, l.len() - 1);
    assert(head@ =~= l@.drop_last());
    proof {
        crate::text::lemma_right_stripped(head@, Class::Blank);
    }
    head.len() - strip_right(head, Class::Blank).len()
}

/// Drops a semicolon that dangles at the end of a line.
pub fn drop_separator(l: &[char]) -> (r: &[char])
    ensures
        r@ == undangled(l@),
{
    if closing_blanks(l) >= 2 {
        let head = vstd::slice::slice_subrange(l, 0, l.len() - 1);
        assert(head@ =~= l@.drop_last());
        strip_right(head, Class::Blank)
    } else {
        l
    }
}

/// `s` as removed tokens leave it, tidied: on each line a semicolon at the end
/// goes that two or more blanks cut off from the rest, and each run of blanks
/// becomes one space.
pub open spec fn collapsed(s: Seq<char>) -> Seq<char> {
    spaced(by_line(s, |l: Seq<char>| undangled(l)))
}

/// Collapses the runs of blanks that removed tokens leave behind and drops the
/// semicolons that they leave dangling at the end of a line; line feeds stay.
pub fn collapse_inline_spaces(s: &[char]) -> (out: Vec<char>)
    ensures
        out@ == collapsed(s@),
{
    let ghost f = |l: Seq<char>| undangled(l);
    let mut kept: Vec<char> = Vec::new();
    let mut rest = s;
    loop
        invariant_except_break
            kept@ + by_line(rest@, f) == by_line(s@, f),
        invariant
            f == (|l: Seq<char>| undangled(l)),
        ensures
            kept@ == by_line(s@, f),
        decreases rest.len(),
    {
        let line = take_before(rest, '\n');
        proof {
            crate::text::lemma_first_index(rest@, '\n');
        }
        let ghost so_far = kept@;
        let r = drop_separator(line);
        append_chars(&mut kept, r);
        if line.len() == rest.len() {
            assert(line@ =~= rest@);
            break;
        }
        kept.push('\n');
        let ghost here = rest@;
        rest = vstd::slice::slice_subrange(rest, line.len() + 1, rest.len());
        assert(rest@ =~= here.skip(line.len() as int + 1));
        assert(kept@ + by_line(rest@, f) =~= so_far + by_line(here, f));
    }
    single_space(kept.as_slice())
}

fn append_chars(out: &mut Vec<char>, s: &[char])
    ensures
        final(out)@ == old(out)@ + s@,
{
    let mut i: usize = 0;
    let ghost before = out@;
    assert(before + s@.take(0) =~= before);
    while i < s.len()
        invariant
            i <= s.len(),
            out@ == before + s@.take(i as int),
        decreases s.len() - i,
    {
        out.push(s[i]);
        assert(s@.take(i + 1) =~= s@.take(i as int).push(s@[i as int]));
        i += 1;
    }
    assert(s@.take(i as int) == s@);
}

/// `text` up to the reactions trailer.
pub open spec fn without_trailer(text: Seq<char>) -> Seq<char> {
    match reactions_cut(text) {
        Some(cut) => text.take(cut),
        None => text,
    }
}

/// `raw` with line feeds for line ends, up to the reactions trailer.
pub fn drop_trailer(raw: &str) -> (out: String)
    ensures
        out@ == without_trailer(crate::text::unix_lines(raw@)),
{
    let cs = chars_of(raw);
    let text = normalize_newlines(cs.as_slice());
    match find_reactions_block(text.as_slice()) {
        Some(cut) => {
            let kept = vstd::slice::slice_subrange(text.as_slice(), 0, cut);
            assert(kept@ == text@.take(cut as int));
            text_of(kept)
        },
        None => text_of(text.as_slice()),
    }
}

/// `text` with custom emojis written as `:name:`.
pub open spec fn emojis_named(text: Seq<char>) -> Seq<char> {
    crate::patterns::all_replaced(CUSTOM_EMOJI@, text, Rule::Colons)
}

/// Replaces `<:name:id>` and `<a:name:id>` with `:name:`.
pub fn replace_custom_emojis(text: &str) -> (out: String)
    ensures
        out@ == emojis_named(text@),
{
    replace_all(CUSTOM_EMOJI, text, &Rule::Colons)
}

/// `text` with the marks that `pattern` matches around its group dropped.
pub open spec fn unwrapped(pattern: Seq<char>, text: Seq<char>) -> Seq<char> {
    crate::patterns::all_replaced(pattern, text, Rule::Group)
}

/// `text` without Discord's markdown delimiters: fences first, then inline
/// code, bold, underline, italic, strike, spoiler and the marks at line starts.
pub open spec fn markdown_stripped(text: Seq<char>) -> Seq<char> {
    let t1 = unwrapped(CODE_FENCE@, text);
    let t2 = unwrapped(CODE_INLINE@, t1);
    let t3 = unwrapped(BOLD@, t2);
    let t4 = unwrapped(UNDERLINE@, t3);
    let t5 = unwrapped(ITALIC_STAR@, t4);
    let t6 = unwrapped(STRIKE@, t5);
    let t7 = unwrapped(SPOILER@, t6);
    unwrapped(LINE_PREFIX@, t7)
}

/// Drops Discord's markdown delimiters and keeps what they wrap. Single
/// underscores stay, since file names have them.
pub fn strip_markdown(text: &str) -> (out: String)
    ensures
        out@ == markdown_stripped(text@),
{
    let t1 = replace_all(CODE_FENCE, text, &Rule::Group);
    let t2 = replace_all(CODE_INLINE, t1.as_str(), &Rule::Group);
    let t3 = replace_all(BOLD, t2.as_str(), &Rule::Group);
    let t4 = replace_all(UNDERLINE, t3.as_str(), &Rule::Group);
    let t5 = replace_all(ITALIC_STAR, t4.as_str(), &Rule::Group);
    let t6 = replace_all(STRIKE, t5.as_str(), &Rule::Group);
    let t7 = replace_all(SPOILER, t6.as_str(), &Rule::Group);
    replace_all(LINE_PREFIX, t7.as_str(), &Rule::Group)
}

/// What becomes of a line once its mentions were written as `resolved`, where
/// `bare` is the same with `@` alone for each handle: a semicolon at its end
/// goes if the mentions that were dropped left it dangling, that is, if they
/// widened the gap before it.
pub open spec fn separator_settled(
    line: Seq<char>,
    bare: Seq<char>,
    resolved: Seq<char>,
) -> Seq<char> {
    if line.len() > 0 && line.last() == ';' && closing_run(line) < closing_run(bare) && 2
        <= closing_run(bare) {
        undangled(resolved)
    } else {
        resolved
    }
}

/// Drops the semicolon at the end of a line if dropped mentions left it
/// dangling.
pub fn settle_separator(line: &[char], bare: &[char], resolved: &[char]) -> (out: Vec<char>)
    ensures
        out@ == separator_settled(line@, bare@, resolved@),
{
    let widened = line.len() > 0 && line[line.len() - 1] == ';' && closing_blanks(line)
        < closing_blanks(bare) && 2 <= closing_blanks(bare);
    if widened {
        slice_to_vec(drop_separator(resolved))
    } else {
        slice_to_vec(resolved)
    }
}

/// The line with `@everyone` and `@here` dropped and user mentions resolved
/// through `user_map`.
pub open spec fn line_resolved(line: Seq<char>, user_map: &StrMap<String>) -> Seq<char> {
    let named = crate::patterns::all_replaced(EVERYONE@, line, Rule::Fixed(""));
    let bare = crate::patterns::all_replaced(USER_MENTION@, named, Rule::Sign(user_map));
    let resolved = crate::patterns::all_replaced(USER_MENTION@, named, Rule::Handle(user_map));
    separator_settled(line, bare, resolved)
}

/// Drops or resolves the mentions of users in a line.
pub fn resolve_line(line: &[char], user_map: &StrMap<String>) -> (out: Vec<char>)
    ensures
        out@ == line_resolved(line@, user_map),
{
    let text = text_of(line);
    let named = replace_all(EVERYONE, text.as_str(), &Rule::Fixed(""));
    let bare = chars_of(replace_all(USER_MENTION, named.as_str(), &Rule::Sign(user_map)).as_str());
    let resolved = chars_of(
        replace_all(USER_MENTION, named.as_str(), &Rule::Handle(user_map)).as_str(),
    );
    settle_separator(line, bare.as_slice(), resolved.as_slice())
}

/// `text` with the mentions of users dropped or resolved line by line, and
/// channel and role mentions turned into the pointer to the bio.
pub open spec fn mentions_resolved(text: Seq<char>, user_map: &StrMap<String>) -> Seq<char> {
    let t1 = by_line(text, |l: Seq<char>| line_resolved(l, user_map));
    let t2 = crate::patterns::all_replaced(CHANNEL_MENTION@, t1, Rule::Fixed(BIO_POINTER));
    crate::patterns::all_replaced(ROLE_MENTION@, t2, Rule::Fixed(BIO_POINTER))
}

/// Drops or resolves the mentions in `text`.
pub fn resolve_mentions(text: &str, user_map: &StrMap<String>) -> (out: String)
    ensures
        out@ == mentions_resolved(text@, user_map),
{
    let ghost f = |l: Seq<char>| line_resolved(l, user_map);
    let cs = chars_of(text);
    let mut done: Vec<char> = Vec::new();
    let mut rest = cs.as_slice();
    loop
        invariant_except_break
            done@ + by_line(rest@, f) == by_line(text@, f),
        invariant
            f == (|l: Seq<char>| line_resolved(l, user_map)),
        ensures
            done@ == by_line(text@, f),
        decreases rest.len(),
    {
        let line = take_before(rest, '\n');
        proof {
            crate::text::lemma_first_index(rest@, '\n');
        }
        let ghost so_far = done@;
        let r = resolve_line(line, user_map);
        append_chars(&mut done, r.as_slice());
        if line.len() == rest.len() {
            assert(line@ =~= rest@);
            break;
        }
        done.push('\n');
        let ghost here = rest@;
        rest = vstd::slice::slice_subrange(rest, line.len() + 1, rest.len());
        assert(rest@ =~= here.skip(line.len() as int + 1));
        assert(done@ + by_line(rest@, f) =~= so_far + by_line(here, f));
    }
    let t1 = text_of(done.as_slice());
    let t2 = replace_all(CHANNEL_MENTION, t1.as_str(), &Rule::Fixed(BIO_POINTER));
    replace_all(ROLE_MENTION, t2.as_str(), &Rule::Fixed(BIO_POINTER))
}

/// `text` with runs of blanks collapsed and the white space at its ends dropped.
pub open spec fn tidied(text: Seq<char>) -> Seq<char> {
    crate::text::trimmed(spaced(text))
}

/// Collapses runs of blanks and trims.
pub fn tidy(text: &str) -> (out: String)
    ensures
        out@ == tidied(text@),
{
    let cs = chars_of(text);
    let flat = single_space(cs.as_slice());
    text_of(trim(flat.as_slice()))
}

/// The caption for the announcement `raw`.
pub open spec fn caption_of(raw: Seq<char>, user_map: &StrMap<String>) -> Seq<char> {
    let body = without_trailer(crate::text::unix_lines(raw));
    let undated = crate::patterns::first_replaced(TRAILING_TIMESTAMP@, body, Rule::Fixed(""));
    let resolved = mentions_resolved(undated, user_map);
    let plain = markdown_stripped(emojis_named(resolved));
    tidied(unwrapped(BRACKET_URL@, plain))
}

/// The Instagram caption for a Discord announcement.
///
/// `user_map` gives the Instagram handle, without the `@`, of Discord user ids.
pub fn discord_to_caption(raw: &str, user_map: &StrMap<String>) -> (out: String)
    ensures
        out@ == caption_of(raw@, user_map),
{
    let body = drop_trailer(raw);
    let undated = replace_first(TRAILING_TIMESTAMP, body.as_str(), &Rule::Fixed(""));
    let resolved = resolve_mentions(undated.as_str(), user_map);
    let named = replace_custom_emojis(resolved.as_str());
    let plain = strip_markdown(named.as_str());
    let linked = replace_all(BRACKET_URL, plain.as_str(), &Rule::Group);
    tidy(linked.as_str())
}

/// No tab, and no space behind a space.
pub open spec fn single_spaced(s: Seq<char>) -> bool {
    &&& forall|i: int| 0 <= i < s.len() ==> #[trigger] s[i] != '\t'
    &&& forall|i: int| 0 < i < s.len() ==> !(#[trigger] s[i] == ' ' && s[i - 1] == ' ')
}

proof fn lemma_spaced(s: Seq<char>)
    ensures
        single_spaced(spaced(s)),
        s.len() > 0 ==> spaced(s).len() > 0 && (spaced(s).last() == ' ' <==> is_blank(s.last())),
    decreases s.len(),
{
    if s.len() > 0 {
        let d = s.drop_last();
        let e = spaced(d);
        let r = spaced(s);
        lemma_spaced(d);
        if d.len() > 0 {
            assert(d.last() == s[s.len() - 2]);
        }
        if r != e {
            assert forall|i: int| 0 <= i < r.len() implies #[trigger] r[i] != '\t' by {
                if i < e.len() {
                    assert(r[i] == e[i]);
                }
            }
            assert forall|i: int| 0 < i < r.len() implies !(#[trigger] r[i] == ' ' && r[i - 1]
                == ' ') by {
                assert(r[i - 1] == e[i - 1]);
                if i < e.len() {
                    assert(r[i] == e[i]);
                }
            }
        }
    }
}

/// Single-spacing a single-spaced text changes nothing.
pub proof fn law_spaced_fixpoint(s: Seq<char>)
    requires
        single_spaced(s),
    ensures
        spaced(s) == s,
    decreases s.len(),
{
    if s.len() > 0 {
        let d = s.drop_last();
        assert forall|i: int| 0 <= i < d.len() implies #[trigger] d[i] != '\t' by {
            assert(d[i] == s[i]);
        }
        assert forall|i: int| 0 < i < d.len() implies !(#[trigger] d[i] == ' ' && d[i - 1]
            == ' ') by {
            assert(d[i] == s[i] && d[i - 1] == s[i - 1]);
        }
        law_spaced_fixpoint(d);
        assert(s[s.len() - 1] != '\t');
        if s.len() > 1 {
            assert(s[s.len() - 2] != '\t');
        }
        assert(d.push(s.last()) =~= s);
    } else {
        assert(spaced(s) =~= s);
    }
}

proof fn lemma_single_spaced_part(s: Seq<char>, i: int, j: int)
    requires
        single_spaced(s),
        0 <= i <= j <= s.len(),
    ensures
        single_spaced(s.subrange(i, j)),
{
    let p = s.subrange(i, j);
    assert forall|k: int| 0 <= k < p.len() implies #[trigger] p[k] != '\t' by {
        assert(p[k] == s[i + k]);
    }
    assert forall|k: int| 0 < k < p.len() implies !(#[trigger] p[k] == ' ' && p[k - 1] == ' ') by {
        assert(p[k] == s[i + k]);
        assert(p[k - 1] == s[i + k - 1]);
    }
}

proof fn lemma_undangled_line(l: Seq<char>)
    requires
        single_spaced(l),
    ensures
        undangled(l) == l,
{
    if closing_run(l) >= 2 {
        let h = l.drop_last();
        crate::text::lemma_right_stripped(h, Class::Blank);
        let n = l.len() as int;
        assert(Class::Blank.has(h[n - 2]));
        assert(Class::Blank.has(h[n - 3]));
        assert(l[n - 2] == h[n - 2] && l[n - 3] == h[n - 3]);
        assert(l[n - 2] != '\t' && l[n - 3] != '\t');
        assert(l[n - 2] == ' ' && l[n - 3] == ' ');
    }
}

proof fn lemma_undangled_text(s: Seq<char>)
    requires
        single_spaced(s),
    ensures
        by_line(s, |l: Seq<char>| undangled(l)) == s,
    decreases s.len(),
{
    let line = crate::text::before(s, '\n');
    crate::text::lemma_first_index(s, '\n');
    let n = line.len() as int;
    assert(line =~= s.subrange(0, n));
    lemma_single_spaced_part(s, 0, n);
    lemma_undangled_line(line);
    if n < s.len() {
        let rest = s.skip(n + 1);
        assert(rest =~= s.subrange(n + 1, s.len() as int));
        lemma_single_spaced_part(s, n + 1, s.len() as int);
        lemma_undangled_text(rest);
        assert(line + seq!['\n'] + rest =~= s);
    } else {
        assert(line =~= s);
    }
}

/// Collapsing a single-spaced text changes nothing: a semicolon behind one space
/// stays.
pub proof fn law_collapsed_fixpoint(s: Seq<char>)
    requires
        single_spaced(s),
    ensures
        collapsed(s) == s,
{
    lemma_undangled_text(s);
    law_spaced_fixpoint(s);
}

/// Collapsing gives a single-spaced text, which collapsing leaves alone.
pub proof fn law_collapsed_once(s: Seq<char>)
    ensures
        single_spaced(collapsed(s)),
        collapsed(collapsed(s)) == collapsed(s),
{
    lemma_spaced(by_line(s, |l: Seq<char>| undangled(l)));
    law_collapsed_fixpoint(collapsed(s));
}

proof fn lemma_stripped_gap(head: Seq<char>, blanks: Seq<char>)
    requires
        head.len() > 0 ==> !is_blank(head.last()),
        forall|i: int| 0 <= i < blanks.len() ==> is_blank(#[trigger] blanks[i]),
    ensures
        crate::text::right_stripped(head + blanks, Class::Blank) == head,
    decreases blanks.len(),
{
    if blanks.len() > 0 {
        let fewer = blanks.drop_last();
        assert forall|i: int| 0 <= i < fewer.len() implies is_blank(#[trigger] fewer[i]) by {
            assert(fewer[i] == blanks[i]);
        }
        lemma_stripped_gap(head, fewer);
        assert((head + blanks).drop_last() =~= head + fewer);
        assert((head + blanks).last() == blanks[blanks.len() - 1]);
    } else {
        assert(head + blanks =~= head);
    }
}

proof fn lemma_closing_gap(head: Seq<char>, blanks: Seq<char>)
    requires
        head.len() > 0 ==> !is_blank(head.last()),
        forall|i: int| 0 <= i < blanks.len() ==> is_blank(#[trigger] blanks[i]),
    ensures
        closing_run(head + blanks + seq![';']) == blanks.len(),
        blanks.len() >= 2 ==> undangled(head + blanks + seq![';']) == head,
{
    lemma_stripped_gap(head, blanks);
    assert((head + blanks + seq![';']).drop_last() =~= head + blanks);
}

/// The semicolon that a removed token leaves dangling at the end of a line goes,
/// together with the blanks before it.
pub proof fn law_dangling_separator_dropped(head: Seq<char>, blanks: Seq<char>)
    requires
        forall|i: int| 0 <= i < head.len() ==> #[trigger] head[i] != '\n',
        head.len() > 0 ==> !is_blank(head.last()),
        blanks.len() >= 2,
        forall|i: int| 0 <= i < blanks.len() ==> is_blank(#[trigger] blanks[i]),
    ensures
        collapsed(head + blanks + seq![';']) == spaced(head),
{
    let l = head + blanks + seq![';'];
    lemma_closing_gap(head, blanks);
    crate::text::lemma_first_index(l, '\n');
    let k = crate::text::first_index(l, '\n');
    if k < head.len() {
        assert(l[k] == head[k]);
    } else if k < l.len() - 1 {
        assert(l[k] == blanks[k - head.len()]);
    } else if k < l.len() {
        assert(l[k] == ';');
    }
    assert(k == l.len());
}

/// A line that no mention of users stands in stays as it is, however many blanks
/// stand before a semicolon at its end.
pub proof fn law_typed_separator_stays(line: Seq<char>, user_map: &StrMap<String>)
    requires
        unmatched(EVERYONE@, line),
        unmatched(USER_MENTION@, line),
    ensures
        line_resolved(line, user_map) == line,
{
}

/// A mention that is dropped at the end of a line takes the semicolon behind it
/// along, and the blanks around it.
pub proof fn law_dropped_mention_takes_separator(
    head: Seq<char>,
    gap: Seq<char>,
    mention: Seq<char>,
    id: Seq<char>,
    more: Seq<char>,
    user_map: &StrMap<String>,
)
    requires
        head.len() > 0 ==> !is_blank(head.last()),
        gap.len() > 0,
        forall|i: int| 0 <= i < gap.len() ==> is_blank(#[trigger] gap[i]),
        more.len() > 0,
        forall|i: int| 0 <= i < more.len() ==> is_blank(#[trigger] more[i]),
        mention.len() > 0,
        !is_blank(mention.last()),
        unmatched(EVERYONE@, head + gap + mention + more + seq![';']),
        crate::patterns::regex_matches(USER_MENTION@, head + gap + mention + more + seq![';'])
            == seq![(head + gap, mention, id)],
        !user_map@.contains_key(id),
    ensures
        line_resolved(head + gap + mention + more + seq![';'], user_map) == head,
{
    let line = head + gap + mention + more + seq![';'];
    let ms = crate::patterns::regex_matches(USER_MENTION@, line);
    let tail = line.skip((ms[0].0.len() + ms[0].1.len()) as int);
    let both = gap + more;
    assert forall|i: int| 0 <= i < both.len() implies is_blank(#[trigger] both[i]) by {
        if i < gap.len() {
            assert(both[i] == gap[i]);
        } else {
            assert(both[i] == more[i - gap.len()]);
        }
    }
    let left = head + both + seq![';'];
    let before = head + gap + mention;
    assert(before.last() == mention.last());
    lemma_closing_gap(before, more);
    assert(line == before + more + seq![';']);
    lemma_closing_gap(head, both);
    assert(tail =~= more + seq![';']);
    assert(ms.drop_first().len() == 0);
    reveal_with_fuel(crate::patterns::substituted, 2);
    assert(crate::patterns::substituted(ms, line, Rule::Sign(user_map)) =~= left);
    assert(crate::patterns::substituted(ms, line, Rule::Handle(user_map)) =~= left);
}

/// Every caption is single-spaced and has no white space at its ends.
pub proof fn law_caption_tidy(raw: Seq<char>, user_map: &StrMap<String>)
    ensures
        single_spaced(caption_of(raw, user_map)),
        caption_of(raw, user_map).len() > 0 ==> {
            &&& !crate::text::is_white(caption_of(raw, user_map)[0])
            &&& !crate::text::is_white(caption_of(raw, user_map).last())
        },
{
    let body = without_trailer(crate::text::unix_lines(raw));
    let undated = crate::patterns::first_replaced(TRAILING_TIMESTAMP@, body, Rule::Fixed(""));
    let resolved = mentions_resolved(undated, user_map);
    let t = unwrapped(BRACKET_URL@, markdown_stripped(emojis_named(resolved)));
    law_tidied(t);
}

/// A tidied text is single-spaced, has no white space at its ends, and tidying
/// it again changes nothing.
pub proof fn law_tidied(t: Seq<char>)
    ensures
        single_spaced(tidied(t)),
        tidied(t).len() > 0 ==> {
            &&& !crate::text::is_white(tidied(t)[0])
            &&& !crate::text::is_white(tidied(t).last())
        },
        tidied(tidied(t)) == tidied(t),
{
    let c = spaced(t);
    let l = crate::text::left_stripped(c, Class::White);
    let r = tidied(t);
    lemma_spaced(t);
    crate::text::law_trimmed_ends(c);
    crate::text::lemma_left_stripped(c, Class::White);
    crate::text::lemma_right_stripped(l, Class::White);
    let k = c.len() - l.len();
    assert forall|i: int| 0 <= i < r.len() implies #[trigger] r[i] == c[i + k] by {
        assert(l == c.subrange(k, c.len() as int));
        assert(r == l.subrange(0, r.len() as int));
    }
    assert forall|i: int| 0 < i < r.len() implies !(#[trigger] r[i] == ' ' && r[i - 1] == ' ') by {
        assert(r[i - 1] == c[i - 1 + k]);
        assert(r[i] == c[i + k]);
    }
    law_spaced_fixpoint(r);
    assert(crate::text::trimmed(r) == r);
}

/// Nothing behind the reactions line matters: a text that holds such a line can
/// go on in any way.
pub proof fn law_trailer_dropped(text: Seq<char>, tail: Seq<char>)
    requires
        reactions_cut(text) is Some,
    ensures
        without_trailer(text + seq!['\n'] + tail) == without_trailer(text),
        without_trailer(text).is_prefix_of(text),
{
    let more = text + seq!['\n'] + tail;
    lemma_reactions_extended(text, tail, 0);
    lemma_reactions_line_index(text, 0);
    let start = reactions_line(lines_from(text, 0))->0;
    assert(more.take(start) == text.take(start));
    let kept = crate::text::right_stripped(text.take(start), Class::LineEnd);
    crate::text::lemma_right_stripped(text.take(start), Class::LineEnd);
    let cut = kept.len() as int;
    assert(more.take(cut) =~= text.take(cut));
    assert(text.take(cut) =~= text.subrange(0, cut));
}

proof fn lemma_reactions_line_index(text: Seq<char>, i: int)
    requires
        0 <= i,
        reactions_line(lines_from(text, i)) is Some,
    ensures
        i <= reactions_line(lines_from(text, i))->0 < text.len(),
    decreases text.len() + 1 - i,
{
    let lines = lines_from(text, i);
    let line = crate::text::before(text.skip(i), '\n');
    crate::text::lemma_first_index(text.skip(i), '\n');
    assert(lines.drop_first() =~= lines_from(text, i + line.len() + 1));
    if !is_reactions_line(line) {
        lemma_reactions_line_index(text, i + line.len() + 1);
    }
}

proof fn lemma_first_index_extended(s: Seq<char>, tail: Seq<char>, c: char)
    ensures
        crate::text::first_index(s + seq![c] + tail, c) == crate::text::first_index(s, c),
    decreases s.len(),
{
    let more = s + seq![c] + tail;
    if s.len() > 0 && s[0] != c {
        assert(more.drop_first() == s.drop_first() + seq![c] + tail);
        lemma_first_index_extended(s.drop_first(), tail, c);
    }
}

proof fn lemma_reactions_extended(text: Seq<char>, tail: Seq<char>, i: int)
    requires
        0 <= i,
        reactions_line(lines_from(text, i)) is Some,
    ensures
        reactions_line(lines_from(text + seq!['\n'] + tail, i)) == reactions_line(
            lines_from(text, i),
        ),
    decreases text.len() + 1 - i,
{
    let more = text + seq!['\n'] + tail;
    let lines = lines_from(text, i);
    let line = crate::text::before(text.skip(i), '\n');
    crate::text::lemma_first_index(text.skip(i), '\n');
    assert(more.skip(i) == text.skip(i) + seq!['\n'] + tail);
    lemma_first_index_extended(text.skip(i), tail, '\n');
    assert(crate::text::before(more.skip(i), '\n') =~= line);
    assert(lines.drop_first() =~= lines_from(text, i + line.len() + 1));
    let lines2 = lines_from(more, i);
    assert(lines2.drop_first() =~= lines_from(more, i + line.len() + 1));
    if !is_reactions_line(line) {
        lemma_reactions_extended(text, tail, i + line.len() + 1);
    }
}

proof fn lemma_left_stripped_cr(l: Seq<char>)
    ensures
        crate::text::left_stripped(l, Class::White).len() > 0 ==> crate::text::left_stripped(
            l.push('\r'),
            Class::White,
        ) == crate::text::left_stripped(l, Class::White).push('\r'),
        crate::text::left_stripped(l, Class::White).len() == 0 ==> crate::text::left_stripped(
            l.push('\r'),
            Class::White,
        ).len() == 0,
    decreases l.len(),
{
    if l.len() > 0 {
        assert(l.push('\r').drop_first() =~= l.drop_first().push('\r'));
        lemma_left_stripped_cr(l.drop_first());
    } else {
        let one = l.push('\r');
        assert(one.drop_first().len() == 0);
        assert(crate::text::left_stripped(one, Class::White) == crate::text::left_stripped(
            one.drop_first(),
            Class::White,
        ));
    }
}

proof fn lemma_reactions_line_cr(l: Seq<char>)
    ensures
        is_reactions_line(l.push('\r')) == is_reactions_line(l),
{
    let s = crate::text::left_stripped(l, Class::White);
    lemma_left_stripped_cr(l);
    if s.len() > 0 {
        assert(s.push('\r').drop_last() == s);
        assert(crate::text::right_stripped(s.push('\r'), Class::White)
            == crate::text::right_stripped(s, Class::White));
    } else {
        assert(crate::text::left_stripped(l.push('\r'), Class::White) =~= s);
    }
}

proof fn lemma_first_index_cr(s: Seq<char>)
    ensures
        crate::text::first_index(s.push('\r'), '\n') == crate::text::first_index(s, '\n') || (
        crate::text::first_index(s, '\n') == s.len() && crate::text::first_index(
            s.push('\r'),
            '\n',
        ) == s.len() + 1),
        crate::text::first_index(s, '\n') < s.len() ==> crate::text::first_index(
            s.push('\r'),
            '\n',
        ) == crate::text::first_index(s, '\n'),
        crate::text::first_index(s, '\n') == s.len() ==> crate::text::first_index(
            s.push('\r'),
            '\n',
        ) == s.len() + 1,
    decreases s.len(),
{
    let m = s.push('\r');
    if s.len() == 0 {
        assert(m.drop_first() =~= Seq::<char>::empty());
        assert(crate::text::first_index(m.drop_first(), '\n') == 0);
    } else {
        assert(m.drop_first() =~= s.drop_first().push('\r'));
        lemma_first_index_cr(s.drop_first());
        crate::text::lemma_first_index(s.drop_first(), '\n');
    }
}

proof fn lemma_reactions_cr(u: Seq<char>, i: int)
    requires
        0 <= i <= u.len() + 1,
    ensures
        reactions_line(lines_from(u.push('\r'), i)) == reactions_line(lines_from(u, i)),
    decreases u.len() + 1 - i,
{
    let m = u.push('\r');
    if i < u.len() {
        let k = crate::text::first_index(u.skip(i), '\n');
        crate::text::lemma_first_index(u.skip(i), '\n');
        assert(m.skip(i) =~= u.skip(i).push('\r'));
        lemma_first_index_cr(u.skip(i));
        let line = crate::text::before(u.skip(i), '\n');
        let line2 = crate::text::before(m.skip(i), '\n');
        assert(lines_from(u, i).drop_first() =~= lines_from(u, i + line.len() + 1));
        assert(lines_from(m, i).drop_first() =~= lines_from(m, i + line2.len() + 1));
        if k < u.len() - i {
            assert(line2 =~= line);
            lemma_reactions_cr(u, i + line.len() + 1);
        } else {
            assert(line =~= u.skip(i));
            assert(line2 =~= line.push('\r'));
            lemma_reactions_line_cr(line);
            assert(lines_from(u, i + line.len() + 1) =~= Seq::<(int, Seq<char>)>::empty());
            assert(lines_from(m, i + line2.len() + 1) =~= Seq::<(int, Seq<char>)>::empty());
        }
    } else if i == u.len() {
        let none = Seq::<char>::empty();
        assert(m.skip(i) =~= none.push('\r'));
        lemma_first_index_cr(none);
        lemma_reactions_line_cr(none);
        assert(!is_reactions_line(none));
        let line2 = crate::text::before(m.skip(i), '\n');
        assert(line2 =~= none.push('\r'));
        assert(lines_from(m, i).drop_first() =~= lines_from(m, i + line2.len() + 1));
        assert(lines_from(m, i + line2.len() + 1) =~= Seq::<(int, Seq<char>)>::empty());
    }
}

proof fn lemma_unix_lines_joined(r: Seq<char>, tail: Seq<char>)
    ensures
        r.len() == 0 || r.last() != '\r' ==> crate::text::unix_lines(r + seq!['\n'] + tail)
            == crate::text::unix_lines(r) + seq!['\n'] + crate::text::unix_lines(tail),
        r.len() > 0 && r.last() == '\r' ==> {
            &&& crate::text::unix_lines(r + seq!['\n'] + tail) == crate::text::unix_lines(
                r.drop_last(),
            ) + seq!['\n'] + crate::text::unix_lines(tail)
            &&& crate::text::unix_lines(r) == crate::text::unix_lines(r.drop_last()).push('\r')
        },
    decreases r.len(),
{
    let more = r + seq!['\n'] + tail;
    if r.len() == 0 {
        assert(more.drop_first() =~= tail);
        assert(crate::text::unix_lines(r) =~= Seq::<char>::empty());
        assert(crate::text::unix_lines(more) =~= crate::text::unix_lines(r) + seq!['\n']
            + crate::text::unix_lines(tail));
    } else if r.len() == 1 && r[0] == '\r' {
        assert(more.skip(2) =~= tail);
        assert(r.drop_last() =~= Seq::<char>::empty());
        assert(r.drop_first() =~= Seq::<char>::empty());
        assert(crate::text::unix_lines(r.drop_last()) =~= Seq::<char>::empty());
        assert(crate::text::unix_lines(r) =~= seq!['\r']);
        assert(crate::text::unix_lines(more) =~= seq!['\n'] + crate::text::unix_lines(tail));
        assert(crate::text::unix_lines(more) =~= crate::text::unix_lines(r.drop_last())
            + seq!['\n'] + crate::text::unix_lines(tail));
    } else if r.len() > 1 && r[0] == '\r' && r[1] == '\n' {
        let q = r.skip(2);
        assert(more.skip(2) =~= q + seq!['\n'] + tail);
        lemma_unix_lines_joined(q, tail);
        if r.last() == '\r' {
            assert(q.len() > 0);
            assert(q.last() == '\r');
            assert(r.drop_last().skip(2) =~= q.drop_last());
            assert(r.drop_last().len() > 1);
            assert(crate::text::unix_lines(r.drop_last()) == seq!['\n'] + crate::text::unix_lines(
                q.drop_last(),
            ));
            assert(crate::text::unix_lines(r) =~= crate::text::unix_lines(r.drop_last()).push(
                '\r',
            ));
            assert(crate::text::unix_lines(more) =~= crate::text::unix_lines(r.drop_last())
                + seq!['\n'] + crate::text::unix_lines(tail));
        } else {
            if q.len() > 0 {
                assert(q.last() == r.last());
            }
            assert(crate::text::unix_lines(more) =~= crate::text::unix_lines(r) + seq!['\n']
                + crate::text::unix_lines(tail));
        }
    } else {
        let q = r.drop_first();
        assert(more.drop_first() =~= q + seq!['\n'] + tail);
        assert(more[0] == r[0]);
        if r.len() > 1 {
            assert(more[1] == r[1]);
        }
        lemma_unix_lines_joined(q, tail);
        if r.last() == '\r' {
            assert(r.len() > 1);
            assert(q.last() == '\r');
            let d = r.drop_last();
            assert(d.drop_first() =~= q.drop_last());
            assert(d[0] == r[0]);
            if d.len() > 1 {
                assert(d[1] == r[1]);
            }
            assert(crate::text::unix_lines(d) == seq![r[0]] + crate::text::unix_lines(
                q.drop_last(),
            ));
            assert(crate::text::unix_lines(r) =~= crate::text::unix_lines(d).push('\r'));
            assert(crate::text::unix_lines(more) =~= crate::text::unix_lines(d) + seq!['\n']
                + crate::text::unix_lines(tail));
        } else {
            if q.len() > 0 {
                assert(q.last() == r.last());
            }
            assert(crate::text::unix_lines(more) =~= crate::text::unix_lines(r) + seq!['\n']
                + crate::text::unix_lines(tail));
        }
    }
}

/// The caption does not depend on what follows the reactions line: once an
/// announcement holds such a line, whatever is added on further lines is left
/// out.
pub proof fn law_caption_ignores_trailer(
    raw: Seq<char>,
    tail: Seq<char>,
    user_map: &StrMap<String>,
)
    requires
        reactions_cut(crate::text::unix_lines(raw)) is Some,
    ensures
        caption_of(raw + seq!['\n'] + tail, user_map) == caption_of(raw, user_map),
{
    let u = crate::text::unix_lines(raw);
    let v = crate::text::unix_lines(tail);
    lemma_unix_lines_joined(raw, tail);
    if raw.len() > 0 && raw.last() == '\r' {
        let w = crate::text::unix_lines(raw.drop_last());
        lemma_reactions_cr(w, 0);
        lemma_reactions_line_index(w, 0);
        let start = reactions_line(lines_from(w, 0))->0;
        assert(u.take(start) =~= w.take(start));
        crate::text::lemma_right_stripped(w.take(start), Class::LineEnd);
        let cut = reactions_cut(w)->0;
        assert(u.take(cut) =~= w.take(cut));
        law_trailer_dropped(w, v);
    } else {
        law_trailer_dropped(u, v);
    }
}

/// The expression matches nothing in the text.
pub open spec fn unmatched(pattern: Seq<char>, text: Seq<char>) -> bool {
    crate::patterns::regex_matches(pattern, text).len() == 0
}

/// Whether `p` holds of every line of `text`.
pub open spec fn each_line(text: Seq<char>, p: spec_fn(Seq<char>) -> bool) -> bool
    decreases text.len(),
{
    let line = crate::text::before(text, '\n');
    proof {
        crate::text::lemma_first_index(text, '\n');
    }
    p(line) && (line.len() < text.len() ==> each_line(text.skip(line.len() as int + 1), p))
}

proof fn lemma_lines_unchanged(
    text: Seq<char>,
    p: spec_fn(Seq<char>) -> bool,
    f: spec_fn(Seq<char>) -> Seq<char>,
)
    requires
        each_line(text, p),
        forall|l: Seq<char>| #[trigger] p(l) ==> f(l) == l,
    ensures
        by_line(text, f) == text,
    decreases text.len(),
{
    let line = crate::text::before(text, '\n');
    crate::text::lemma_first_index(text, '\n');
    assert(p(line));
    if line.len() < text.len() {
        let rest = text.skip(line.len() as int + 1);
        lemma_lines_unchanged(rest, p, f);
        assert(line + seq!['\n'] + rest =~= text);
    } else {
        assert(line =~= text);
    }
}

/// An announcement that none of the rules applies to is its own caption.
pub proof fn law_plain_text_unchanged(raw: Seq<char>, user_map: &StrMap<String>)
    requires
        crate::text::unix_lines(raw) == raw,
        reactions_cut(raw) is None,
        tidied(raw) == raw,
        unmatched(TRAILING_TIMESTAMP@, raw),
        each_line(raw, |l: Seq<char>| unmatched(EVERYONE@, l) && unmatched(USER_MENTION@, l)),
        unmatched(CHANNEL_MENTION@, raw),
        unmatched(ROLE_MENTION@, raw),
        unmatched(CUSTOM_EMOJI@, raw),
        unmatched(CODE_FENCE@, raw),
        unmatched(CODE_INLINE@, raw),
        unmatched(BOLD@, raw),
        unmatched(UNDERLINE@, raw),
        unmatched(ITALIC_STAR@, raw),
        unmatched(STRIKE@, raw),
        unmatched(SPOILER@, raw),
        unmatched(LINE_PREFIX@, raw),
        unmatched(BRACKET_URL@, raw),
    ensures
        caption_of(raw, user_map) == raw,
{
    let p = |l: Seq<char>| unmatched(EVERYONE@, l) && unmatched(USER_MENTION@, l);
    let f = |l: Seq<char>| line_resolved(l, user_map);
    lemma_lines_unchanged(raw, p, f);
}

proof fn lemma_handles_decide(
    ms: Seq<(Seq<char>, Seq<char>, Seq<char>)>,
    text: Seq<char>,
    a: &StrMap<String>,
    b: &StrMap<String>,
)
    requires
        crate::strmap::text_map(a@) == crate::strmap::text_map(b@),
    ensures
        crate::patterns::substituted(ms, text, Rule::Handle(a)) == crate::patterns::substituted(
            ms,
            text,
            Rule::Handle(b),
        ),
        crate::patterns::substituted(ms, text, Rule::Sign(a)) == crate::patterns::substituted(
            ms,
            text,
            Rule::Sign(b),
        ),
    decreases ms.len(),
{
    if ms.len() > 0 {
        let g = ms[0].2;
        let x = crate::strmap::text_map(a@);
        let y = crate::strmap::text_map(b@);
        assert(x.contains_key(g) == a@.contains_key(g));
        assert(y.contains_key(g) == b@.contains_key(g));
        if x.contains_key(g) {
            assert(x[g] == a@[g]@);
            assert(y[g] == b@[g]@);
        }
        assert(Rule::Handle(a).written(g) == Rule::Handle(b).written(g));
        assert(Rule::Sign(a).written(g) == Rule::Sign(b).written(g));
        lemma_handles_decide(
            ms.drop_first(),
            text.skip((ms[0].0.len() + ms[0].1.len()) as int),
            a,
            b,
        );
    }
}

proof fn lemma_unknown_dropped(
    ms: Seq<(Seq<char>, Seq<char>, Seq<char>)>,
    text: Seq<char>,
    user_map: &StrMap<String>,
)
    requires
        forall|i: int| 0 <= i < ms.len() ==> !user_map@.contains_key((#[trigger] ms[i]).2),
    ensures
        crate::patterns::substituted(ms, text, Rule::Handle(user_map))
            == crate::patterns::substituted(ms, text, Rule::Fixed("")),
    decreases ms.len(),
{
    reveal_strlit("");
    if ms.len() > 0 {
        let rest = ms.drop_first();
        assert(!user_map@.contains_key(ms[0].2));
        assert forall|i: int| 0 <= i < rest.len() implies !user_map@.contains_key(
            (#[trigger] rest[i]).2,
        ) by {
            assert(rest[i] == ms[i + 1]);
        }
        assert(Rule::Handle(user_map).written(ms[0].2) =~= Rule::Fixed("").written(ms[0].2));
        lemma_unknown_dropped(
            rest,
            text.skip((ms[0].0.len() + ms[0].1.len()) as int),
            user_map,
        );
    }
}

/// Mentions of users without a handle are removed.
pub proof fn law_unknown_mentions_removed(text: Seq<char>, user_map: &StrMap<String>)
    requires
        forall|i: int|
            0 <= i < crate::patterns::regex_matches(USER_MENTION@, text).len()
                ==> !user_map@.contains_key(
                (#[trigger] crate::patterns::regex_matches(USER_MENTION@, text)[i]).2,
            ),
    ensures
        crate::patterns::all_replaced(USER_MENTION@, text, Rule::Handle(user_map))
            == crate::patterns::all_replaced(USER_MENTION@, text, Rule::Fixed("")),
{
    lemma_unknown_dropped(crate::patterns::regex_matches(USER_MENTION@, text), text, user_map);
}

/// The caption depends on the announcement and on the handles alone.
pub proof fn law_caption_depends_on_handles(
    raw: Seq<char>,
    a: &StrMap<String>,
    b: &StrMap<String>,
)
    requires
        crate::strmap::text_map(a@) == crate::strmap::text_map(b@),
    ensures
        caption_of(raw, a) == caption_of(raw, b),
{
    let body = without_trailer(crate::text::unix_lines(raw));
    let undated = crate::patterns::first_replaced(TRAILING_TIMESTAMP@, body, Rule::Fixed(""));
    let f = |l: Seq<char>| line_resolved(l, a);
    let g = |l: Seq<char>| line_resolved(l, b);
    assert forall|l: Seq<char>| #[trigger] f(l) == g(l) by {
        let named = crate::patterns::all_replaced(EVERYONE@, l, Rule::Fixed(""));
        lemma_handles_decide(crate::patterns::regex_matches(USER_MENTION@, named), named, a, b);
    }
    assert(f =~= g);
}

/// A text cut at what an expression matches in it: for each match the text before
/// it, the match and what its group matched, and the text behind the last match.
pub struct Pieces {
    pub parts: Seq<(Seq<char>, Seq<char>, Seq<char>)>,
    pub tail: Seq<char>,
}

impl Pieces {
    /// The whole text.
    pub open spec fn whole(self) -> Seq<char>
        decreases self.parts.len(),
    {
        if self.parts.len() == 0 {
            self.tail
        } else {
            let last = self.parts.last();
            let before = Pieces {
                parts: self.parts.drop_last(),
                tail: last.0 + last.1 + self.tail,
            };
            before.whole()
        }
    }

    /// The text with each match written as `before`, what its group matched and
    /// `after`.
    pub open spec fn rewritten(self, before: Seq<char>, after: Seq<char>) -> Seq<char>
        decreases self.parts.len(),
    {
        if self.parts.len() == 0 {
            self.tail
        } else {
            let last = self.parts.last();
            let less = Pieces {
                parts: self.parts.drop_last(),
                tail: last.0 + before + last.2 + after + self.tail,
            };
            less.rewritten(before, after)
        }
    }

    /// The text with each match written as `fixed`.
    pub open spec fn replaced(self, fixed: Seq<char>) -> Seq<char>
        decreases self.parts.len(),
    {
        if self.parts.len() == 0 {
            self.tail
        } else {
            let last = self.parts.last();
            let less = Pieces {
                parts: self.parts.drop_last(),
                tail: last.0 + fixed + self.tail,
            };
            less.replaced(fixed)
        }
    }

    /// The text with what each group matched in the place of its match.
    pub open spec fn unwrapped(self) -> Seq<char> {
        self.rewritten(Seq::empty(), Seq::empty())
    }

    /// Whether the text is cut at all that the expression matches.
    pub open spec fn cut_at(self, pattern: Seq<char>) -> bool {
        crate::patterns::regex_matches(pattern, self.whole()) == self.parts
    }
}

proof fn lemma_pieces_front(p: Pieces)
    requires
        p.parts.len() > 0,
    ensures
        ({
            let first = p.parts[0];
            let rest = Pieces { parts: p.parts.drop_first(), tail: p.tail };
            &&& p.whole() == first.0 + first.1 + rest.whole()
            &&& forall|b: Seq<char>, a: Seq<char>| #[trigger]
                p.rewritten(b, a) == first.0 + b + first.2 + a + rest.rewritten(b, a)
            &&& forall|f: Seq<char>| #[trigger]
                p.replaced(f) == first.0 + f + rest.replaced(f)
        }),
    decreases p.parts.len(),
{
    let first = p.parts[0];
    let last = p.parts.last();
    let rest = Pieces { parts: p.parts.drop_first(), tail: p.tail };
    let none = Seq::<(Seq<char>, Seq<char>, Seq<char>)>::empty();
    if p.parts.len() == 1 {
        assert(p.parts.drop_last() =~= none);
        assert(rest.parts =~= none);
        let before = Pieces { parts: none, tail: last.0 + last.1 + p.tail };
        assert(p.whole() == before.whole());
        assert(p.whole() =~= first.0 + first.1 + rest.whole());
        assert forall|b: Seq<char>, a: Seq<char>| #[trigger] p.rewritten(b, a) == first.0 + b
            + first.2 + a + rest.rewritten(b, a) by {
            let less = Pieces { parts: none, tail: last.0 + b + last.2 + a + p.tail };
            assert(p.rewritten(b, a) == less.rewritten(b, a));
        }
        assert forall|f: Seq<char>| #[trigger] p.replaced(f) == first.0 + f + rest.replaced(f) by {
            let less = Pieces { parts: none, tail: last.0 + f + p.tail };
            assert(p.replaced(f) == less.replaced(f));
        }
    } else {
        assert(p.parts.drop_last().drop_first() =~= p.parts.drop_first().drop_last());
        assert(rest.parts.last() == last);
        assert(p.parts.drop_last()[0] == first);
        lemma_pieces_front(
            Pieces { parts: p.parts.drop_last(), tail: last.0 + last.1 + p.tail },
        );
        assert forall|b: Seq<char>, a: Seq<char>| #[trigger] p.rewritten(b, a) == first.0 + b
            + first.2 + a + rest.rewritten(b, a) by {
            let less = Pieces {
                parts: p.parts.drop_last(),
                tail: last.0 + b + last.2 + a + p.tail,
            };
            lemma_pieces_front(less);
            assert(p.rewritten(b, a) == less.rewritten(b, a));
        }
        assert forall|f: Seq<char>| #[trigger] p.replaced(f) == first.0 + f + rest.replaced(f) by {
            let less = Pieces { parts: p.parts.drop_last(), tail: last.0 + f + p.tail };
            lemma_pieces_front(less);
            assert(p.replaced(f) == less.replaced(f));
        }
    }
}

/// Replacing rewrites every match and keeps everything else, however many
/// matches there are.
pub proof fn law_every_match_rewritten(p: Pieces, fixed: &str)
    ensures
        crate::patterns::substituted(p.parts, p.whole(), Rule::Group) == p.unwrapped(),
        crate::patterns::substituted(p.parts, p.whole(), Rule::Colons) == p.rewritten(
            seq![':'],
            seq![':'],
        ),
        crate::patterns::substituted(p.parts, p.whole(), Rule::Fixed(fixed)) == p.replaced(fixed@),
    decreases p.parts.len(),
{
    if p.parts.len() > 0 {
        let first = p.parts[0];
        let rest = Pieces { parts: p.parts.drop_first(), tail: p.tail };
        lemma_pieces_front(p);
        law_every_match_rewritten(rest, fixed);
        assert(p.whole().skip((first.0.len() + first.1.len()) as int) =~= rest.whole());
        let none = Seq::<char>::empty();
        assert(p.rewritten(none, none) =~= first.0 + first.2 + rest.rewritten(none, none));
        assert(p.rewritten(seq![':'], seq![':']) =~= first.0 + (seq![':'] + first.2 + seq![':'])
            + rest.rewritten(seq![':'], seq![':']));
    }
}

/// Stripping markdown drops one delimiter after the other, each wherever it
/// stands: fences, inline code, bold, underline, italic, strike, spoilers and the
/// marks at line starts. What the delimiters wrap and all the rest is kept.
pub proof fn law_markdown_stripped_everywhere(
    fences: Pieces,
    codes: Pieces,
    bolds: Pieces,
    underlines: Pieces,
    italics: Pieces,
    strikes: Pieces,
    spoilers: Pieces,
    marks: Pieces,
)
    requires
        fences.cut_at(CODE_FENCE@),
        codes.cut_at(CODE_INLINE@),
        bolds.cut_at(BOLD@),
        underlines.cut_at(UNDERLINE@),
        italics.cut_at(ITALIC_STAR@),
        strikes.cut_at(STRIKE@),
        spoilers.cut_at(SPOILER@),
        marks.cut_at(LINE_PREFIX@),
        codes.whole() == fences.unwrapped(),
        bolds.whole() == codes.unwrapped(),
        underlines.whole() == bolds.unwrapped(),
        italics.whole() == underlines.unwrapped(),
        strikes.whole() == italics.unwrapped(),
        spoilers.whole() == strikes.unwrapped(),
        marks.whole() == spoilers.unwrapped(),
    ensures
        markdown_stripped(fences.whole()) == marks.unwrapped(),
{
    law_every_match_rewritten(fences, "");
    law_every_match_rewritten(codes, "");
    law_every_match_rewritten(bolds, "");
    law_every_match_rewritten(underlines, "");
    law_every_match_rewritten(italics, "");
    law_every_match_rewritten(strikes, "");
    law_every_match_rewritten(spoilers, "");
    law_every_match_rewritten(marks, "");
}

/// Stripping markdown unwraps every fenced code block of a text that no other delimiter
/// stands in.
pub proof fn law_every_code_block_unwrapped(p: Pieces)
    requires
        p.cut_at(CODE_FENCE@),
        unmatched(CODE_INLINE@, p.unwrapped()),
        unmatched(BOLD@, p.unwrapped()),
        unmatched(UNDERLINE@, p.unwrapped()),
        unmatched(ITALIC_STAR@, p.unwrapped()),
        unmatched(STRIKE@, p.unwrapped()),
        unmatched(SPOILER@, p.unwrapped()),
        unmatched(LINE_PREFIX@, p.unwrapped()),
    ensures
        markdown_stripped(p.whole()) == p.unwrapped(),
{
    law_every_match_rewritten(p, "");
}

/// Stripping markdown unwraps every piece of inline code of a text that no other delimiter
/// stands in.
pub proof fn law_every_inline_code_unwrapped(p: Pieces)
    requires
        p.cut_at(CODE_INLINE@),
        unmatched(CODE_FENCE@, p.whole()),
        unmatched(BOLD@, p.unwrapped()),
        unmatched(UNDERLINE@, p.unwrapped()),
        unmatched(ITALIC_STAR@, p.unwrapped()),
        unmatched(STRIKE@, p.unwrapped()),
        unmatched(SPOILER@, p.unwrapped()),
        unmatched(LINE_PREFIX@, p.unwrapped()),
    ensures
        markdown_stripped(p.whole()) == p.unwrapped(),
{
    law_every_match_rewritten(p, "");
}

/// Stripping markdown unwraps every bold span of a text that no other delimiter
/// stands in.
pub proof fn law_every_bold_span_unwrapped(p: Pieces)
    requires
        p.cut_at(BOLD@),
        unmatched(CODE_FENCE@, p.whole()),
        unmatched(CODE_INLINE@, p.whole()),
        unmatched(UNDERLINE@, p.unwrapped()),
        unmatched(ITALIC_STAR@, p.unwrapped()),
        unmatched(STRIKE@, p.unwrapped()),
        unmatched(SPOILER@, p.unwrapped()),
        unmatched(LINE_PREFIX@, p.unwrapped()),
    ensures
        markdown_stripped(p.whole()) == p.unwrapped(),
{
    law_every_match_rewritten(p, "");
}

/// Stripping markdown unwraps every underlined span of a text that no other delimiter
/// stands in.
pub proof fn law_every_underlined_span_unwrapped(p: Pieces)
    requires
        p.cut_at(UNDERLINE@),
        unmatched(CODE_FENCE@, p.whole()),
        unmatched(CODE_INLINE@, p.whole()),
        unmatched(BOLD@, p.whole()),
        unmatched(ITALIC_STAR@, p.unwrapped()),
        unmatched(STRIKE@, p.unwrapped()),
        unmatched(SPOILER@, p.unwrapped()),
        unmatched(LINE_PREFIX@, p.unwrapped()),
    ensures
        markdown_stripped(p.whole()) == p.unwrapped(),
{
    law_every_match_rewritten(p, "");
}

/// Stripping markdown unwraps every italic span of a text that no other delimiter
/// stands in.
pub proof fn law_every_italic_span_unwrapped(p: Pieces)
    requires
        p.cut_at(ITALIC_STAR@),
        unmatched(CODE_FENCE@, p.whole()),
        unmatched(CODE_INLINE@, p.whole()),
        unmatched(BOLD@, p.whole()),
        unmatched(UNDERLINE@, p.whole()),
        unmatched(STRIKE@, p.unwrapped()),
        unmatched(SPOILER@, p.unwrapped()),
        unmatched(LINE_PREFIX@, p.unwrapped()),
    ensures
        markdown_stripped(p.whole()) == p.unwrapped(),
{
    law_every_match_rewritten(p, "");
}

/// Stripping markdown unwraps every struck span of a text that no other delimiter
/// stands in.
pub proof fn law_every_struck_span_unwrapped(p: Pieces)
    requires
        p.cut_at(STRIKE@),
        unmatched(CODE_FENCE@, p.whole()),
        unmatched(CODE_INLINE@, p.whole()),
        unmatched(BOLD@, p.whole()),
        unmatched(UNDERLINE@, p.whole()),
        unmatched(ITALIC_STAR@, p.whole()),
        unmatched(SPOILER@, p.unwrapped()),
        unmatched(LINE_PREFIX@, p.unwrapped()),
    ensures
        markdown_stripped(p.whole()) == p.unwrapped(),
{
    law_every_match_rewritten(p, "");
}

/// Stripping markdown unwraps every spoiler of a text that no other delimiter
/// stands in.
pub proof fn law_every_spoiler_unwrapped(p: Pieces)
    requires
        p.cut_at(SPOILER@),
        unmatched(CODE_FENCE@, p.whole()),
        unmatched(CODE_INLINE@, p.whole()),
        unmatched(BOLD@, p.whole()),
        unmatched(UNDERLINE@, p.whole()),
        unmatched(ITALIC_STAR@, p.whole()),
        unmatched(STRIKE@, p.whole()),
        unmatched(LINE_PREFIX@, p.unwrapped()),
    ensures
        markdown_stripped(p.whole()) == p.unwrapped(),
{
    law_every_match_rewritten(p, "");
}

/// Stripping markdown unwraps every mark at the start of a line of a text that no other delimiter
/// stands in.
pub proof fn law_every_line_mark_unwrapped(p: Pieces)
    requires
        p.cut_at(LINE_PREFIX@),
        unmatched(CODE_FENCE@, p.whole()),
        unmatched(CODE_INLINE@, p.whole()),
        unmatched(BOLD@, p.whole()),
        unmatched(UNDERLINE@, p.whole()),
        unmatched(ITALIC_STAR@, p.whole()),
        unmatched(STRIKE@, p.whole()),
        unmatched(SPOILER@, p.whole()),
    ensures
        markdown_stripped(p.whole()) == p.unwrapped(),
{
    law_every_match_rewritten(p, "");
}

/// Every custom emoji becomes its name between colons, wherever it stands, and
/// all the rest is kept.
pub proof fn law_every_emoji_named(p: Pieces)
    requires
        p.cut_at(CUSTOM_EMOJI@),
    ensures
        emojis_named(p.whole()) == p.rewritten(seq![':'], seq![':']),
{
    law_every_match_rewritten(p, "");
}

/// Every channel mention and every role mention becomes the pointer to the bio,
/// wherever it stands, once the mentions of users are written line by line.
pub proof fn law_every_channel_and_role_pointed(
    text: Seq<char>,
    user_map: &StrMap<String>,
    channels: Pieces,
    roles: Pieces,
)
    requires
        channels.whole() == by_line(text, |l: Seq<char>| line_resolved(l, user_map)),
        channels.cut_at(CHANNEL_MENTION@),
        roles.whole() == channels.replaced("voir Discord (lien en bio)"@),
        roles.cut_at(ROLE_MENTION@),
    ensures
        mentions_resolved(text, user_map) == roles.replaced("voir Discord (lien en bio)"@),
{
    law_every_match_rewritten(channels, "voir Discord (lien en bio)");
    law_every_match_rewritten(roles, "voir Discord (lien en bio)");
}

/// The lines of a text are written each on its own, in their order.
pub proof fn law_line_by_line(
    line: Seq<char>,
    rest: Seq<char>,
    f: spec_fn(Seq<char>) -> Seq<char>,
)
    requires
        !line.contains('\n'),
    ensures
        by_line(line, f) == f(line),
        by_line(line + seq!['\n'] + rest, f) == f(line) + seq!['\n'] + by_line(rest, f),
{
    let all = line + seq!['\n'] + rest;
    lemma_first_line(line, rest);
    assert(all.skip(line.len() as int + 1) =~= rest);
    crate::text::lemma_first_index(line, '\n');
    let k = crate::text::first_index(line, '\n');
    if k < line.len() {
        assert(line.contains(line[k]));
    }
    assert(line.take(k) =~= line);
}

proof fn lemma_first_line(line: Seq<char>, rest: Seq<char>)
    requires
        !line.contains('\n'),
    ensures
        crate::text::before(line + seq!['\n'] + rest, '\n') == line,
{
    let all = line + seq!['\n'] + rest;
    crate::text::lemma_first_index(all, '\n');
    let k = crate::text::first_index(all, '\n');
    if k < line.len() {
        assert(all[k] == line[k]);
        assert(line.contains(line[k]));
    } else if k > line.len() {
        assert(all[line.len() as int] == '\n');
    }
    assert(all.take(k) =~= line);
}

/// A semicolon at the end of a line goes exactly when dropped mentions widened
/// the gap before it to two blanks or more; it goes together with the gap. Else
/// the line stays as it was written.
pub proof fn law_separator_goes_with_its_gap(
    head: Seq<char>,
    gap: Seq<char>,
    bare_head: Seq<char>,
    bare_gap: Seq<char>,
    new_head: Seq<char>,
    new_gap: Seq<char>,
)
    requires
        head.len() > 0 ==> !is_blank(head.last()),
        bare_head.len() > 0 ==> !is_blank(bare_head.last()),
        new_head.len() > 0 ==> !is_blank(new_head.last()),
        forall|i: int| 0 <= i < gap.len() ==> is_blank(#[trigger] gap[i]),
        forall|i: int| 0 <= i < bare_gap.len() ==> is_blank(#[trigger] bare_gap[i]),
        forall|i: int| 0 <= i < new_gap.len() ==> is_blank(#[trigger] new_gap[i]),
        new_gap.len() >= 2,
    ensures
        separator_settled(
            head + gap + seq![';'],
            bare_head + bare_gap + seq![';'],
            new_head + new_gap + seq![';'],
        ) == if gap.len() < bare_gap.len() && bare_gap.len() >= 2 {
            new_head
        } else {
            new_head + new_gap + seq![';']
        },
{
    lemma_closing_gap(head, gap);
    lemma_closing_gap(bare_head, bare_gap);
    lemma_closing_gap(new_head, new_gap);
}

/// A line that does not end with a semicolon, before or after its mentions are
/// written, stays as it was written.
pub proof fn law_no_separator_no_change(line: Seq<char>, bare: Seq<char>, resolved: Seq<char>)
    requires
        (line.len() == 0 || line.last() != ';') || (bare.len() == 0 || bare.last() != ';'),
    ensures
        separator_settled(line, bare, resolved) == resolved,
{
}

/// The text with each match written as `name` says of what its group matched.
pub open spec fn named_by(p: Pieces, name: spec_fn(Seq<char>) -> Seq<char>) -> Seq<char>
    decreases p.parts.len(),
{
    if p.parts.len() == 0 {
        p.tail
    } else {
        let last = p.parts.last();
        named_by(
            Pieces { parts: p.parts.drop_last(), tail: last.0 + name(last.2) + p.tail },
            name,
        )
    }
}

proof fn lemma_named_front(p: Pieces, name: spec_fn(Seq<char>) -> Seq<char>)
    requires
        p.parts.len() > 0,
    ensures
        named_by(p, name) == p.parts[0].0 + name(p.parts[0].2) + named_by(
            Pieces { parts: p.parts.drop_first(), tail: p.tail },
            name,
        ),
    decreases p.parts.len(),
{
    let last = p.parts.last();
    let less = Pieces { parts: p.parts.drop_last(), tail: last.0 + name(last.2) + p.tail };
    assert(named_by(p, name) == named_by(less, name));
    if p.parts.len() == 1 {
        assert(p.parts.drop_first() =~= Seq::<(Seq<char>, Seq<char>, Seq<char>)>::empty());
        assert(less.parts =~= p.parts.drop_first());
    } else {
        lemma_named_front(less, name);
        assert(p.parts.drop_last().drop_first() =~= p.parts.drop_first().drop_last());
        assert(p.parts.drop_first().last() == last);
        assert(less.parts[0] == p.parts[0]);
    }
}

proof fn lemma_named(p: Pieces, rule: Rule, name: spec_fn(Seq<char>) -> Seq<char>)
    requires
        forall|g: Seq<char>| #[trigger] name(g) == rule.written(g),
    ensures
        crate::patterns::substituted(p.parts, p.whole(), rule) == named_by(p, name),
    decreases p.parts.len(),
{
    if p.parts.len() > 0 {
        let first = p.parts[0];
        let rest = Pieces { parts: p.parts.drop_first(), tail: p.tail };
        lemma_pieces_front(p);
        lemma_named_front(p, name);
        lemma_named(rest, rule, name);
        assert(name(first.2) == rule.written(first.2));
        assert(p.whole().skip((first.0.len() + first.1.len()) as int) =~= rest.whole());
    }
}

/// The mentions of one line: every `@everyone` and `@here` goes, and every user
/// mention is written on its own, as the handle behind `@` where there is one and
/// as nothing where there is none. A semicolon at the end is then settled by the
/// gap before it, for which each handle counts as its `@` alone.
pub proof fn law_every_mention_of_a_line_written(
    all: Pieces,
    users: Pieces,
    user_map: &StrMap<String>,
)
    requires
        all.cut_at(EVERYONE@),
        users.whole() == all.replaced(Seq::empty()),
        users.cut_at(USER_MENTION@),
    ensures
        line_resolved(all.whole(), user_map) == separator_settled(
            all.whole(),
            named_by(
                users,
                |id: Seq<char>|
                    if user_map@.contains_key(id) {
                        seq!['@']
                    } else {
                        Seq::empty()
                    },
            ),
            named_by(
                users,
                |id: Seq<char>|
                    if user_map@.contains_key(id) {
                        seq!['@'] + user_map@[id]@
                    } else {
                        Seq::empty()
                    },
            ),
        ),
{
    reveal_strlit("");
    assert(""@ =~= Seq::<char>::empty());
    law_every_match_rewritten(all, "");
    let sign = |id: Seq<char>|
        if user_map@.contains_key(id) {
            seq!['@']
        } else {
            Seq::empty()
        };
    let handle = |id: Seq<char>|
        if user_map@.contains_key(id) {
            seq!['@'] + user_map@[id]@
        } else {
            Seq::empty()
        };
    lemma_named(users, Rule::Sign(user_map), sign);
    lemma_named(users, Rule::Handle(user_map), handle);
}

/// How a caption comes about, whatever the announcement holds: of the part before
/// the reactions the relative time at the end goes, the mentions are written,
/// the custom emojis named, the markdown stripped and every bracketed link
/// unwrapped, and the result is tidied.
pub proof fn law_caption_made_of_all_rules(
    raw: Seq<char>,
    user_map: &StrMap<String>,
    time: Pieces,
    emojis: Pieces,
    links: Pieces,
)
    requires
        time.whole() == without_trailer(crate::text::unix_lines(raw)),
        time.cut_at(TRAILING_TIMESTAMP@),
        time.parts.len() <= 1,
        emojis.whole() == mentions_resolved(time.replaced(Seq::empty()), user_map),
        emojis.cut_at(CUSTOM_EMOJI@),
        links.whole() == markdown_stripped(emojis.rewritten(seq![':'], seq![':'])),
        links.cut_at(BRACKET_URL@),
    ensures
        caption_of(raw, user_map) == crate::text::trimmed(spaced(links.unwrapped())),
{
    reveal_strlit("");
    assert(""@ =~= Seq::<char>::empty());
    law_every_match_rewritten(time, "");
    law_every_match_rewritten(emojis, "");
    law_every_match_rewritten(links, "");
    if time.parts.len() == 1 {
        assert(time.parts.take(1) =~= time.parts);
    }
}

/// Runs of blanks become one space each, and everything else is kept: a run
/// between two texts that do not touch it with blanks of their own is written as
/// one space between them.
pub proof fn law_each_run_of_blanks_is_one_space(a: Seq<char>, blanks: Seq<char>, b: Seq<char>)
    requires
        a.len() > 0 ==> !is_blank(a.last()),
        b.len() > 0 ==> !is_blank(b[0]),
        blanks.len() > 0,
        forall|i: int| 0 <= i < blanks.len() ==> is_blank(#[trigger] blanks[i]),
    ensures
        spaced(a + blanks + b) == spaced(a) + seq![' '] + spaced(b),
    decreases b.len() + blanks.len(),
{
    let s = a + blanks + b;
    if b.len() == 0 {
        let n = s.len() as int;
        assert(s.last() == blanks.last());
        if blanks.len() == 1 {
            assert(s.drop_last() =~= a);
            if n > 1 {
                assert(s[n - 2] == a.last());
            }
            assert(spaced(s) =~= spaced(a) + seq![' '] + spaced(b));
        } else {
            let fewer = blanks.drop_last();
            assert forall|i: int| 0 <= i < fewer.len() implies is_blank(#[trigger] fewer[i]) by {
                assert(fewer[i] == blanks[i]);
            }
            law_each_run_of_blanks_is_one_space(a, fewer, b);
            assert(s.drop_last() =~= a + fewer + b);
            assert(s[n - 2] == blanks[blanks.len() - 2]);
        }
    } else {
        let c = b.drop_last();
        let n = s.len() as int;
        law_each_run_of_blanks_is_one_space(a, blanks, c);
        assert(s.drop_last() =~= a + blanks + c);
        assert(s.last() == b.last());
        if b.len() > 1 {
            assert(s[n - 2] == b[b.len() - 2]);
        }
        assert(spaced(s) =~= spaced(a) + seq![' '] + spaced(b));
    }
}

proof fn lemma_spaced_ends(t: Seq<char>)
    requires
        t.len() > 0,
        !is_blank(t[0]),
        !is_blank(t.last()),
    ensures
        spaced(t).len() > 0,
        spaced(t)[0] == t[0],
        spaced(t).last() == t.last(),
{
    lemma_spaced_front(t);
}

proof fn lemma_spaced_front(t: Seq<char>)
    requires
        t.len() > 0,
        !is_blank(t[0]),
    ensures
        spaced(t).len() > 0,
        spaced(t)[0] == t[0],
    decreases t.len(),
{
    if t.len() > 1 {
        lemma_spaced_front(t.drop_last());
    } else {
        assert(spaced(t.drop_last()) =~= Seq::<char>::empty());
        assert(t.last() == t[0]);
    }
}

/// A text without white space at its ends is tidied by writing each run of
/// blanks as one space, and a text of white space alone is tidied away.
pub proof fn law_tidied_text(t: Seq<char>)
    ensures
        t.len() > 0 && !crate::text::is_white(t[0]) && !crate::text::is_white(t.last()) ==> tidied(t)
            == spaced(t),
        (forall|i: int| 0 <= i < t.len() ==> crate::text::is_white(#[trigger] t[i])) ==> tidied(
            t,
        ).len() == 0,
{
    let none = Seq::<char>::empty();
    if t.len() > 0 && !crate::text::is_white(t[0]) && !crate::text::is_white(t.last()) {
        lemma_spaced_ends(t);
        crate::text::law_trimmed_keeps_the_middle(none, spaced(t), none);
        assert(none + spaced(t) + none =~= spaced(t));
    }
    if forall|i: int| 0 <= i < t.len() ==> crate::text::is_white(#[trigger] t[i]) {
        lemma_spaced_white(t);
        crate::text::law_trimmed_keeps_the_middle(spaced(t), none, none);
        assert(spaced(t) + none + none =~= spaced(t));
    }
}

proof fn lemma_spaced_white(t: Seq<char>)
    requires
        forall|i: int| 0 <= i < t.len() ==> crate::text::is_white(#[trigger] t[i]),
    ensures
        forall|i: int| 0 <= i < spaced(t).len() ==> crate::text::is_white(#[trigger] spaced(t)[i]),
    decreases t.len(),
{
    if t.len() > 0 {
        let d = t.drop_last();
        assert forall|i: int| 0 <= i < d.len() implies crate::text::is_white(#[trigger] d[i]) by {
            assert(d[i] == t[i]);
        }
        lemma_spaced_white(d);
        assert(crate::text::is_white(t[t.len() - 1]));
        assert forall|i: int| 0 <= i < spaced(t).len() implies crate::text::is_white(
            #[trigger] spaced(t)[i],
        ) by {
            if i < spaced(d).len() {
                assert(spaced(t)[i] == spaced(d)[i]);
            }
        }
    }
}

/// What stands on either side of a character that is no blank is written on its
/// own.
pub proof fn law_spaced_apart(a: Seq<char>, c: char, b: Seq<char>)
    requires
        !is_blank(c),
    ensures
        spaced(a + seq![c] + b) == spaced(a) + seq![c] + spaced(b),
    decreases b.len(),
{
    let s = a + seq![c] + b;
    let n = s.len() as int;
    if b.len() == 0 {
        assert(s.drop_last() =~= a);
        assert(s.last() == c);
        assert(spaced(s) =~= spaced(a) + seq![c] + spaced(b));
    } else {
        let d = b.drop_last();
        law_spaced_apart(a, c, d);
        assert(s.drop_last() =~= a + seq![c] + d);
        assert(s.last() == b.last());
        if b.len() > 1 {
            assert(s[n - 2] == b[b.len() - 2]);
        } else {
            assert(s[n - 2] == c);
        }
        assert(spaced(s) =~= spaced(a) + seq![c] + spaced(b));
    }
}

/// The lines of a text are collapsed each on its own; in a line, a semicolon at
/// the end goes with the gap before it where that is two blanks or more, and each
/// run of blanks becomes one space.
pub proof fn law_lines_collapsed_apart(head: Seq<char>, gap: Seq<char>, rest: Seq<char>)
    requires
        !head.contains('\n'),
        head.len() > 0 ==> !is_blank(head.last()),
        forall|i: int| 0 <= i < gap.len() ==> is_blank(#[trigger] gap[i]),
    ensures
        collapsed(head + gap + seq![';'] + seq!['\n'] + rest) == (if gap.len() >= 2 {
            spaced(head)
        } else {
            spaced(head + gap + seq![';'])
        }) + seq!['\n'] + collapsed(rest),
        head.len() > 0 && head.last() != ';' ==> collapsed(head + seq!['\n'] + rest) == spaced(head)
            + seq!['\n'] + collapsed(rest),
{
    let f = |l: Seq<char>| undangled(l);
    let line = head + gap + seq![';'];
    assert(!line.contains('\n')) by {
        if line.contains('\n') {
            let k = choose|k: int| 0 <= k < line.len() && line[k] == '\n';
            if k < head.len() {
                assert(head[k] == '\n');
            } else if k < line.len() - 1 {
                assert(is_blank(gap[k - head.len()]));
                assert(gap[k - head.len()] == '\n');
            }
        }
    }
    lemma_closing_gap(head, gap);
    law_line_by_line(line, rest, f);
    law_line_by_line(head, rest, f);
    law_spaced_apart(undangled(line), '\n', by_line(rest, f));
    law_spaced_apart(head, '\n', by_line(rest, f));
    assert(gap.len() < 2 ==> undangled(line) == line);
}

proof fn lemma_left_stripped_gap(a: Seq<char>, s: Seq<char>)
    requires
        forall|i: int| 0 <= i < a.len() ==> crate::text::is_white(#[trigger] a[i]),
        s.len() > 0,
        !crate::text::is_white(s[0]),
    ensures
        crate::text::left_stripped(a + s, Class::White) == s,
    decreases a.len(),
{
    let t = a + s;
    if a.len() > 0 {
        let b = a.drop_first();
        assert forall|i: int| 0 <= i < b.len() implies crate::text::is_white(#[trigger] b[i]) by {
            assert(b[i] == a[i + 1]);
        }
        lemma_left_stripped_gap(b, s);
        assert(t[0] == a[0]);
        assert(t.drop_first() =~= b + s);
    } else {
        assert(t =~= s);
    }
}

/// The reactions open with a line of the word, white space and a colon, with
/// white space around them; more may stand between that colon and another one at
/// the end.
pub proof fn law_reactions_line_opens(
    a: Seq<char>,
    word: Seq<char>,
    b: Seq<char>,
    more: Seq<char>,
    c: Seq<char>,
)
    requires
        word == "Réactions"@ || word == "Reactions"@,
        forall|i: int| 0 <= i < a.len() ==> crate::text::is_white(#[trigger] a[i]),
        forall|i: int| 0 <= i < b.len() ==> crate::text::is_white(#[trigger] b[i]),
        forall|i: int| 0 <= i < c.len() ==> crate::text::is_white(#[trigger] c[i]),
        more.len() > 0 ==> more.last() == ':',
    ensures
        is_reactions_line(a + (word + b + seq![':'] + more) + c),
{
    reveal_strlit("Réactions");
    reveal_strlit("Reactions");
    let t = word + b + seq![':'] + more;
    assert(t[0] == word[0]);
    assert(word[0] == 'R');
    assert(t.last() == ':');
    crate::text::law_trimmed_keeps_the_middle(a, t, c);
    let rest = seq![':'] + more;
    assert(t.skip(word.len() as int) =~= b + rest);
    lemma_left_stripped_gap(b, rest);
    assert(t.subrange(0, word.len() as int) =~= word);
    assert(word.is_prefix_of(t));
}

/// Nothing else opens the reactions: such a line is white space, the word, white
/// space, a colon, whatever ends with a colon, and white space.
pub proof fn law_reactions_line_shape(line: Seq<char>) -> (r: (
    Seq<char>,
    Seq<char>,
    Seq<char>,
    Seq<char>,
    Seq<char>,
))
    requires
        is_reactions_line(line),
    ensures
        line == r.0 + (r.1 + r.2 + seq![':'] + r.3) + r.4,
        r.1 == "Réactions"@ || r.1 == "Reactions"@,
        forall|i: int| 0 <= i < r.0.len() ==> crate::text::is_white(#[trigger] r.0[i]),
        forall|i: int| 0 <= i < r.2.len() ==> crate::text::is_white(#[trigger] r.2[i]),
        forall|i: int| 0 <= i < r.4.len() ==> crate::text::is_white(#[trigger] r.4[i]),
        r.3.len() > 0 ==> r.3.last() == ':',
{
    let l = crate::text::left_stripped(line, Class::White);
    let t = crate::text::trimmed(line);
    crate::text::lemma_left_stripped(line, Class::White);
    crate::text::lemma_right_stripped(l, Class::White);
    let k = line.len() - l.len();
    let a = line.take(k);
    let c = l.skip(t.len() as int);
    assert(l =~= line.subrange(k, line.len() as int));
    assert(t =~= l.subrange(0, t.len() as int));
    assert(line =~= a + t + c);
    assert forall|i: int| 0 <= i < a.len() implies crate::text::is_white(#[trigger] a[i]) by {
        assert(Class::White.has(line[i]));
    }
    assert forall|i: int| 0 <= i < c.len() implies crate::text::is_white(#[trigger] c[i]) by {
        assert(c[i] == l[t.len() + i]);
        assert(Class::White.has(l[t.len() + i]));
    }
    let word = if begins_section(t, "Réactions"@) {
        "Réactions"@
    } else {
        "Reactions"@
    };
    let n = word.len() as int;
    assert(word.is_prefix_of(t));
    assert(t.take(n) =~= word);
    let tail = t.skip(n);
    let rest = crate::text::left_stripped(tail, Class::White);
    crate::text::lemma_left_stripped(tail, Class::White);
    let j = tail.len() - rest.len();
    let b = tail.take(j);
    assert(rest =~= tail.subrange(j, tail.len() as int));
    assert forall|i: int| 0 <= i < b.len() implies crate::text::is_white(#[trigger] b[i]) by {
        assert(Class::White.has(tail[i]));
    }
    let more = rest.drop_first();
    assert(rest =~= seq![':'] + more);
    assert(tail =~= b + rest);
    assert(t =~= word + b + seq![':'] + more);
    if more.len() > 0 {
        assert(more.last() == t.last());
    }
    (a, word, b, more, c)
}

#[verifier::spinoff_prover]
proof fn lemma_reactions_after(before: Seq<char>, line: Seq<char>, i: int)
    requires
        0 <= i <= before.len(),
        each_line(before.skip(i), |l: Seq<char>| !is_reactions_line(l)),
        is_reactions_line(line),
        !line.contains('\n'),
    ensures
        reactions_line(lines_from(before + seq!['\n'] + line, i)) == Some(before.len() as int + 1),
    decreases before.len() - i,
{
    let p = |l: Seq<char>| !is_reactions_line(l);
    let text = before + seq!['\n'] + line;
    let b = before.skip(i);
    let l = crate::text::before(b, '\n');
    let n = l.len() as int;
    crate::text::lemma_first_index(b, '\n');
    assert(each_line(b, p));
    assert(p(l));
    assert(!l.contains('\n')) by {
        if l.contains('\n') {
            let k = choose|k: int| 0 <= k < l.len() && l[k] == '\n';
            assert(b[k] == '\n');
        }
    }
    if n < b.len() {
        assert(text[i + n] == b[n]);
    }
    assert(text[i + n] == '\n');
    let rest = text.skip(i + n + 1);
    assert(text.skip(i) =~= l + seq!['\n'] + rest);
    lemma_first_line(l, rest);
    assert(crate::text::before(text.skip(i), '\n') == l);
    let lines = lines_from(text, i);
    let later = lines_from(text, i + n + 1);
    assert(lines == seq![(i, l)] + later);
    assert(lines[0] == (i, l));
    assert(lines.drop_first() =~= later);
    assert(!is_reactions_line(l));
    assert(reactions_line(lines) == reactions_line(later));
    if n < b.len() {
        assert(b.skip(n + 1) =~= before.skip(i + n + 1));
        lemma_reactions_after(before, line, i + n + 1);
    } else {
        assert(i + n + 1 == before.len() + 1);
        assert(text.skip(i + n + 1) =~= line);
        crate::text::lemma_first_index(line, '\n');
        let k = crate::text::first_index(line, '\n');
        if k < line.len() {
            assert(line.contains(line[k]));
        }
        assert(line.take(k) =~= line);
        lemma_reactions_line_is_some(line);
        assert(crate::text::before(text.skip(i + n + 1), '\n') == line);
        assert(later[0] == (i + n + 1, line));
        assert(reactions_line(later) == Some(i + n + 1));
    }
}

proof fn lemma_reactions_line_is_some(line: Seq<char>)
    requires
        is_reactions_line(line),
    ensures
        line.len() > 0,
{
    crate::text::lemma_left_stripped(line, Class::White);
    crate::text::lemma_right_stripped(
        crate::text::left_stripped(line, Class::White),
        Class::White,
    );
}

#[verifier::spinoff_prover]
proof fn lemma_no_reactions(text: Seq<char>, i: int)
    requires
        0 <= i <= text.len(),
        each_line(text.skip(i), |l: Seq<char>| !is_reactions_line(l)),
    ensures
        reactions_line(lines_from(text, i)) is None,
    decreases text.len() - i,
{
    let lines = lines_from(text, i);
    if i < text.len() {
        let p = |l: Seq<char>| !is_reactions_line(l);
        let b = text.skip(i);
        let l = crate::text::before(b, '\n');
        let n = l.len() as int;
        crate::text::lemma_first_index(b, '\n');
        let later = lines_from(text, i + n + 1);
        assert(each_line(b, p));
        assert(p(l));
        assert(lines == seq![(i, l)] + later);
        assert(lines[0] == (i, l));
        assert(lines.drop_first() =~= later);
        assert(reactions_line(lines) == reactions_line(later));
        if n < b.len() {
            assert(b.skip(n + 1) =~= text.skip(i + n + 1));
            lemma_no_reactions(text, i + n + 1);
        } else {
            assert(later =~= Seq::<(int, Seq<char>)>::empty());
        }
    } else {
        assert(lines =~= Seq::<(int, Seq<char>)>::empty());
    }
}

/// The first line that opens the reactions goes with all that follows and with
/// the line feeds and spaces before it; all else before it is kept. A text
/// without such a line is kept whole.
#[verifier::spinoff_prover]
pub proof fn law_kept_before_the_reactions(before: Seq<char>, line: Seq<char>)
    requires
        each_line(before, |l: Seq<char>| !is_reactions_line(l)),
        is_reactions_line(line),
        !line.contains('\n'),
    ensures
        without_trailer(before) == before,
        without_trailer(line) == Seq::<char>::empty(),
        without_trailer(before + seq!['\n'] + line) == crate::text::right_stripped(
            before,
            Class::LineEnd,
        ),
{
    let text = before + seq!['\n'] + line;
    assert(before.skip(0) =~= before);
    lemma_no_reactions(before, 0);
    lemma_reactions_after(before, line, 0);
    let start = before.len() as int + 1;
    assert(text.take(start) =~= before.push('\n'));
    assert(before.push('\n').drop_last() =~= before);
    let kept = crate::text::right_stripped(before, Class::LineEnd);
    crate::text::lemma_right_stripped(before, Class::LineEnd);
    assert(text.take(kept.len() as int) =~= before.subrange(0, kept.len() as int));
    lemma_reactions_line_is_some(line);
    crate::text::lemma_first_index(line, '\n');
    let k = crate::text::first_index(line, '\n');
    if k < line.len() {
        assert(line.contains(line[k]));
    }
    assert(line.skip(0) =~= line);
    assert(line.take(k) =~= line);
    assert(lines_from(line, 0)[0] == (0int, line));
    assert(line.take(0) =~= Seq::<char>::empty());
    assert(without_trailer(line) =~= Seq::<char>::empty());
}

/// Blanks are spaces and tabs.
pub proof fn law_blanks(c: char)
    ensures
        is_blank(c) <==> c == ' ' || c == '\t',
{
}

} // verus!
