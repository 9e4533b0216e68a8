//! Text as sequences of characters: splitting, trimming, comparing and the
//! decimal notation of numbers.

use vstd::prelude::*;

verus! {

/// `String::push` appends one character at the end of the string.
pub assume_specification[ String::push ](s: &mut String, c: char)
    ensures
        final(s)@ == old(s)@.push(c),
;

/// The characters of `s`, in order.
pub fn chars_of(s: &str) -> (out: Vec<char>)
    ensures
        out@ == s@,
{
    let mut out: Vec<char> = Vec::new();
    for c in it: s.chars()
        invariant
            out@ == it.seq().take(it.index()),
            it.seq() == s@,
    {
        out.push(c);
    }
    out
}

/// The string made of `cs`, in order.
pub fn text_of(cs: &[char]) -> (out: String)
    ensures
        out@ == cs@,
{
    let mut out = String::new();
    let mut i: usize = 0;
    while i < cs.len()
        invariant
            i <= cs.len(),
            out@ == cs@.take(i as int),
        decreases cs.len() - i,
    {
        out.push(cs[i]);
        i += 1;
        assert(cs@.take(i as int) == cs@.take(i - 1).push(cs@[i - 1]));
    }
    assert(cs@.take(i as int) == cs@);
    out
}

/// The two strings hold the same characters.
pub fn same(a: &str, b: &str) -> (r: bool)
    ensures
        r == (a@ == b@),
{
    let x = a.to_string();
    let y = b.to_string();
    x == y
}

/// The characters with Unicode's White_Space property.
pub open spec fn is_white(c: char) -> bool {
    let n = c as u32;
    ||| 0x09 <= n <= 0x0d
    ||| n == 0x20
    ||| n == 0x85
    ||| n == 0xa0
    ||| n == 0x1680
    ||| 0x2000 <= n <= 0x200a
    ||| n == 0x2028
    ||| n == 0x2029
    ||| n == 0x202f
    ||| n == 0x205f
    ||| n == 0x3000
}

/// Whether `c` has Unicode's White_Space property.
pub fn white(c: char) -> (r: bool)
    ensures
        r == is_white(c),
{
    let n: u32 = c as u32;
    (0x09 <= n && n <= 0x0d) || n == 0x20 || n == 0x85 || n == 0xa0 || n == 0x1680 || (0x2000 <= n
        && n <= 0x200a) || n == 0x2028 || n == 0x2029 || n == 0x202f || n == 0x205f || n == 0x3000
}

/// A class of characters that can be stripped from the ends of a text.
#[derive(Clone, Copy)]
pub enum Class {
    /// Unicode white space.
    White,
    /// Line feeds and spaces.
    LineEnd,
    /// Spaces and tabs.
    Blank,
    /// The sign `@`.
    At,
}

impl Class {
    /// Whether `c` belongs to the class.
    pub open spec fn has(self, c: char) -> bool {
        match self {
            Class::White => is_white(c),
            Class::LineEnd => c == '\n' || c == ' ',
            Class::Blank => c == ' ' || c == '\t',
            Class::At => c == '@',
        }
    }

    /// Whether `c` belongs to the class.
    pub fn holds(self, c: char) -> (r: bool)
        ensures
            r == self.has(c),
    {
        match self {
            Class::White => white(c),
            Class::LineEnd => c == '\n' || c == ' ',
            Class::Blank => c == ' ' || c == '\t',
            Class::At => c == '@',
        }
    }
}

/// `s` without its longest prefix of characters of `class`.
pub open spec fn left_stripped(s: Seq<char>, class: Class) -> Seq<char>
    decreases s.len(),
{
    if s.len() > 0 && class.has(s[0]) {
        left_stripped(s.drop_first(), class)
    } else {
        s
    }
}

/// `s` without its longest suffix of characters of `class`.
pub open spec fn right_stripped(s: Seq<char>, class: Class) -> Seq<char>
    decreases s.len(),
{
    if s.len() > 0 && class.has(s.last()) {
        right_stripped(s.drop_last(), class)
    } else {
        s
    }
}

/// `s` without the white space at its two ends.
pub open spec fn trimmed(s: Seq<char>) -> Seq<char> {
    right_stripped(left_stripped(s, Class::White), Class::White)
}

/// Drops the longest prefix of characters of `class`.
pub fn strip_left(s: &[char], class: Class) -> (r: &[char])
    ensures
        r@ == left_stripped(s@, class),
{
    let mut i: usize = 0;
    assert(s@.skip(0) == s@);
    while i < s.len() && class.holds(s[i])
        invariant
            i <= s.len(),
            left_stripped(s@.skip(i as int), class) == left_stripped(s@, class),
        decreases s.len() - i,
    {
        assert(s@.skip(i as int).drop_first() == s@.skip(i + 1));
        i += 1;
    }
    vstd::slice::slice_subrange(s, i, s.len())
}

/// Drops the longest suffix of characters of `class`.
pub fn strip_right(s: &[char], class: Class) -> (r: &[char])
    ensures
        r@ == right_stripped(s@, class),
{
    let mut i: usize = s.len();
    assert(s@.take(i as int) == s@);
    while i > 0 && class.holds(s[i - 1])
        invariant
            i <= s.len(),
            right_stripped(s@.take(i as int), class) == right_stripped(s@, class),
        decreases i,
    {
        assert(s@.take(i as int).drop_last() == s@.take(i - 1));
        i -= 1;
    }
    assert(s@.take(i as int) == s@.subrange(0, i as int));
    vstd::slice::slice_subrange(s, 0, i)
}

/// Drops the white space at the two ends.
pub fn trim(s: &[char]) -> (r: &[char])
    ensures
        r@ == trimmed(s@),
{
    strip_right(strip_left(s, Class::White), Class::White)
}

/// What stripping leaves on the left: a suffix that does not start in the class.
pub proof fn lemma_left_stripped(s: Seq<char>, class: Class)
    ensures
        left_stripped(s, class).is_suffix_of(s),
        left_stripped(s, class).len() > 0 ==> !class.has(left_stripped(s, class)[0]),
        forall|i: int|
            0 <= i < s.len() - left_stripped(s, class).len() ==> class.has(#[trigger] s[i]),
    decreases s.len(),
{
    if s.len() > 0 && class.has(s[0]) {
        lemma_left_stripped(s.drop_first(), class);
        let r = left_stripped(s, class);
        assert(s.drop_first().subrange(s.len() - 1 - r.len(), s.len() - 1) =~= s.subrange(
            s.len() - r.len(),
            s.len() as int,
        ));
        assert forall|i: int| 0 <= i < s.len() - r.len() implies class.has(#[trigger] s[i]) by {
            if i > 0 {
                assert(s[i] == s.drop_first()[i - 1]);
            }
        }
    } else {
        assert(s.subrange(0, s.len() as int) =~= s);
    }
}

/// What stripping leaves on the right: a prefix that does not end in the class.
pub proof fn lemma_right_stripped(s: Seq<char>, class: Class)
    ensures
        right_stripped(s, class).is_prefix_of(s),
        right_stripped(s, class).len() > 0 ==> !class.has(right_stripped(s, class).last()),
        forall|i: int|
            right_stripped(s, class).len() <= i < s.len() ==> class.has(#[trigger] s[i]),
    decreases s.len(),
{
    if s.len() > 0 && class.has(s.last()) {
        lemma_right_stripped(s.drop_last(), class);
        let r = right_stripped(s, class);
        assert(s.drop_last().subrange(0, r.len() as int) =~= s.subrange(0, r.len() as int));
        assert forall|i: int| r.len() <= i < s.len() implies class.has(#[trigger] s[i]) by {
            if i < s.len() - 1 {
                assert(s[i] == s.drop_last()[i]);
            }
        }
    } else {
        assert(s.subrange(0, s.len() as int) =~= s);
    }
}

/// A trimmed text has no white space at its ends.
pub proof fn law_trimmed_ends(s: Seq<char>)
    ensures
        trimmed(s).len() > 0 ==> !is_white(trimmed(s)[0]) && !is_white(trimmed(s).last()),
{
    let l = left_stripped(s, Class::White);
    lemma_left_stripped(s, Class::White);
    lemma_right_stripped(l, Class::White);
}

/// Whether `s` begins with `prefix`.
pub fn starts_with(s: &[char], prefix: &[char]) -> (r: bool)
    ensures
        r == prefix@.is_prefix_of(s@),
{
    if prefix.len() > s.len() {
        return false;
    }
    let mut i: usize = 0;
    while i < prefix.len()
        invariant
            i <= prefix.len() <= s.len(),
            forall|j: int| 0 <= j < i ==> prefix@[j] == s@[j],
        decreases prefix.len() - i,
    {
        if prefix[i] != s[i] {
            assert(s@.subrange(0, prefix@.len() as int)[i as int] == s@[i as int]);
            return false;
        }
        i += 1;
    }
    assert(s@.subrange(0, prefix@.len() as int) =~= prefix@);
    true
}

/// Whether `s` ends with `suffix`.
pub fn ends_with(s: &[char], suffix: &[char]) -> (r: bool)
    ensures
        r == suffix@.is_suffix_of(s@),
{
    if suffix.len() > s.len() {
        return false;
    }
    let start = s.len() - suffix.len();
    let tail = vstd::slice::slice_subrange(s, start, s.len());
    let r = starts_with(tail, suffix);
    assert(tail@.subrange(0, suffix@.len() as int) =~= tail@);
    r
}

/// The index of the first `c` in `s`, or the length where there is none.
pub open spec fn first_index(s: Seq<char>, c: char) -> int
    decreases s.len(),
{
    if s.len() == 0 || s[0] == c {
        0
    } else {
        1 + first_index(s.drop_first(), c)
    }
}

/// `first_index` finds the first occurrence.
pub proof fn lemma_first_index(s: Seq<char>, c: char)
    ensures
        0 <= first_index(s, c) <= s.len(),
        first_index(s, c) < s.len() ==> s[first_index(s, c)] == c,
        forall|i: int| 0 <= i < first_index(s, c) ==> #[trigger] s[i] != c,
    decreases s.len(),
{
    if s.len() > 0 && s[0] != c {
        lemma_first_index(s.drop_first(), c);
        let k = first_index(s, c);
        assert forall|i: int| 0 <= i < k implies #[trigger] s[i] != c by {
            if i > 0 {
                assert(s[i] == s.drop_first()[i - 1]);
            }
        }
    }
}

/// The part of `s` before the first `c`; all of it where there is none.
pub open spec fn before(s: Seq<char>, c: char) -> Seq<char> {
    s.take(first_index(s, c))
}

/// The part of `s` before the first `c`.
pub fn take_before(s: &[char], c: char) -> (r: &[char])
    ensures
        r@ == before(s@, c),
{
    let mut i: usize = 0;
    assert(s@.skip(0) == s@);
    while i < s.len() && s[i] != c
        invariant
            i <= s.len(),
            first_index(s@, c) == i + first_index(s@.skip(i as int), c),
        decreases s.len() - i,
    {
        assert(s@.skip(i as int).drop_first() == s@.skip(i + 1));
        i += 1;
    }
    assert(first_index(s@.skip(i as int), c) == 0);
    assert(s@.subrange(0, i as int) =~= s@.take(i as int));
    vstd::slice::slice_subrange(s, 0, i)
}

/// The decimal digit for `d`.
pub open spec fn digit_char(d: int) -> char {
    (48 + d) as char
}

/// The decimal notation of `n`, without leading zeros.
pub open spec fn decimal(n: nat) -> Seq<char>
    decreases n,
{
    if n < 10 {
        seq![digit_char(n as int)]
    } else {
        decimal(n / 10).push(digit_char((n % 10) as int))
    }
}

/// The decimal notation of an integer, with `-` before a negative one.
pub open spec fn signed_decimal(n: int) -> Seq<char> {
    if n < 0 {
        seq!['-'] + decimal((-n) as nat)
    } else {
        decimal(n as nat)
    }
}

fn digit(d: u8) -> (c: char)
    requires
        d < 10,
    ensures
        c == digit_char(d as int),
{
    (48 + d) as char
}

/// The decimal notation of `n`.
pub fn print_u64(n: u64) -> (out: String)
    ensures
        out@ == decimal(n as nat),
    decreases n,
{
    if n < 10 {
        let mut out = String::new();
        out.push(digit(n as u8));
        assert(out@ =~= decimal(n as nat));
        out
    } else {
        let mut out = print_u64(n / 10);
        out.push(digit((n % 10) as u8));
        out
    }
}

/// The decimal notation of `n`.
pub fn print_i64(n: i64) -> (out: String)
    ensures
        out@ == signed_decimal(n as int),
{
    if n >= 0 {
        print_u64(n as u64)
    } else {
        let m: u64 = (-(n + 1)) as u64 + 1;
        let mut out = String::new();
        out.push('-');
        out.append(print_u64(m).as_str());
        assert(out@ =~= signed_decimal(n as int));
        out
    }
}

/// Whether `c` is one of the ASCII digits.
pub open spec fn is_digit(c: char) -> bool {
    '0' <= c <= '9'
}

/// Whether `s` consists of ASCII digits.
pub open spec fn all_digits(s: Seq<char>) -> bool {
    forall|i: int| 0 <= i < s.len() ==> is_digit(#[trigger] s[i])
}

/// The number that a run of ASCII digits writes.
pub open spec fn digits_value(s: Seq<char>) -> nat
    decreases s.len(),
{
    if s.len() == 0 {
        0
    } else {
        (10 * digits_value(s.drop_last()) + (s.last() as int - 48)) as nat
    }
}

/// The value never shrinks when digits are added behind.
pub proof fn lemma_digits_value_grows(s: Seq<char>, i: int)
    requires
        all_digits(s),
        0 <= i <= s.len(),
    ensures
        digits_value(s.take(i)) <= digits_value(s),
    decreases s.len(),
{
    if i == s.len() {
        assert(s.take(i) == s);
    } else {
        assert(s.drop_last().take(i) == s.take(i));
        lemma_digits_value_grows(s.drop_last(), i);
        assert(is_digit(s[s.len() - 1]));
    }
}

/// A zero in front does not change the value.
pub proof fn lemma_leading_zero(s: Seq<char>)
    ensures
        digits_value(seq!['0'] + s) == digits_value(s),
    decreases s.len(),
{
    let more = seq!['0'] + s;
    if s.len() == 0 {
        assert(more.drop_last() =~= s);
    } else {
        assert(more.drop_last() =~= seq!['0'] + s.drop_last());
        assert(more.last() == s.last());
        lemma_leading_zero(s.drop_last());
    }
}

/// The decimal notation consists of digits, at least one, and writes the number.
pub proof fn lemma_decimal(n: nat)
    ensures
        decimal(n).len() > 0,
        all_digits(decimal(n)),
        digits_value(decimal(n)) == n,
    decreases n,
{
    let s = decimal(n);
    if n < 10 {
        assert(s.drop_last() =~= Seq::<char>::empty());
        assert(digits_value(s.drop_last()) == 0);
    } else {
        lemma_decimal(n / 10);
        assert(s.drop_last() =~= decimal(n / 10));
        assert forall|i: int| 0 <= i < s.len() implies is_digit(#[trigger] s[i]) by {
            if i < s.len() - 1 {
                assert(s[i] == decimal(n / 10)[i]);
            }
        }
    }
}

/// The digits behind an optional plus sign.
pub open spec fn unsigned_digits(s: Seq<char>) -> Seq<char> {
    if s.len() > 0 && s[0] == '+' {
        s.drop_first()
    } else {
        s
    }
}

/// The number that `s` writes in decimal, where it is one that fits in 64 bits:
/// an optional plus sign and at least one ASCII digit, nothing else.
pub open spec fn parsed_u64(s: Seq<char>) -> Option<u64> {
    let d = unsigned_digits(s);
    if d.len() > 0 && all_digits(d) && digits_value(d) <= u64::MAX {
        Some(digits_value(d) as u64)
    } else {
        None
    }
}

/// Reads a 64-bit number in decimal notation.
pub fn parse_u64(s: &str) -> (r: Option<u64>)
    ensures
        r == parsed_u64(s@),
{
    let cs = chars_of(s);
    let start: usize = if cs.len() > 0 && cs[0] == '+' {
        1
    } else {
        0
    };
    let d = vstd::slice::slice_subrange(cs.as_slice(), start, cs.len());
    assert(d@ == unsigned_digits(s@));
    if d.len() == 0 {
        return None;
    }
    let mut value: u64 = 0;
    let mut i: usize = 0;
    while i < d.len()
        invariant
            i <= d.len(),
            d@ == unsigned_digits(s@),
            d@.len() > 0,
            forall|j: int| 0 <= j < i ==> is_digit(#[trigger] d@[j]),
            value == digits_value(d@.take(i as int)),
        decreases d.len() - i,
    {
        let c = d[i];
        assert(d@.take(i + 1).drop_last() == d@.take(i as int));
        if !('0' <= c && c <= '9') {
            assert(!is_digit(d@[i as int]));
            return None;
        }
        let v: u64 = (c as u32 - 48) as u64;
        proof {
            if all_digits(d@) {
                lemma_digits_value_grows(d@, i + 1);
            }
            assert(digits_value(d@.take(i + 1)) == 10 * value + v);
        }
        if value > (u64::MAX - v) / 10 {
            assert(10 * value + v > u64::MAX);
            return None;
        }
        value = value * 10 + v;
        i += 1;
    }
    assert(d@.take(i as int) == d@);
    Some(value)
}

/// Reading gives back every number that was printed.
pub proof fn law_printed_number_is_read_back(n: u64)
    ensures
        parsed_u64(decimal(n as nat)) == Some(n),
{
    lemma_decimal(n as nat);
    assert(is_digit(decimal(n as nat)[0]));
}

/// `a` comes before `b` in the order of strings, which compares code points.
pub open spec fn lex_less(a: Seq<char>, b: Seq<char>) -> bool
    decreases a.len(),
{
    if b.len() == 0 {
        false
    } else if a.len() == 0 {
        true
    } else if a[0] != b[0] {
        a[0] < b[0]
    } else {
        lex_less(a.drop_first(), b.drop_first())
    }
}

/// Whether `a` comes before `b` in the order of strings.
pub fn less(a: &[char], b: &[char]) -> (r: bool)
    ensures
        r == lex_less(a@, b@),
{
    let mut i: usize = 0;
    assert(a@.skip(0) == a@ && b@.skip(0) == b@);
    while i < a.len() && i < b.len()
        invariant
            i <= a.len(),
            i <= b.len(),
            lex_less(a@, b@) == lex_less(a@.skip(i as int), b@.skip(i as int)),
        decreases a.len() - i,
    {
        if a[i] != b[i] {
            return a[i] < b[i];
        }
        assert(a@.skip(i as int).drop_first() == a@.skip(i + 1));
        assert(b@.skip(i as int).drop_first() == b@.skip(i + 1));
        i += 1;
    }
    i < b.len()
}

/// The order of strings is total.
pub proof fn lemma_lex_total(a: Seq<char>, b: Seq<char>)
    ensures
        lex_less(a, b) || lex_less(b, a) || a == b,
        !(lex_less(a, b) && lex_less(b, a)),
        lex_less(a, b) ==> a != b,
    decreases a.len(),
{
    if a.len() > 0 && b.len() > 0 {
        if a[0] == b[0] {
            lemma_lex_total(a.drop_first(), b.drop_first());
            assert(a == seq![a[0]] + a.drop_first());
            assert(b == seq![b[0]] + b.drop_first());
        }
    } else if a.len() == 0 && b.len() == 0 {
        assert(a == b);
    }
}

/// The order of strings is transitive.
pub proof fn lemma_lex_transitive(a: Seq<char>, b: Seq<char>, c: Seq<char>)
    requires
        lex_less(a, b),
        lex_less(b, c),
    ensures
        lex_less(a, c),
    decreases a.len(),
{
    if a.len() > 0 && a[0] == b[0] && b[0] == c[0] {
        lemma_lex_transitive(a.drop_first(), b.drop_first(), c.drop_first());
    }
}

/// The texts of `parts` in order, with `sep` between each two.
pub open spec fn joined(parts: Seq<Seq<char>>, sep: Seq<char>) -> Seq<char>
    decreases parts.len(),
{
    if parts.len() == 0 {
        Seq::empty()
    } else if parts.len() == 1 {
        parts[0]
    } else {
        joined(parts.drop_last(), sep) + sep + parts.last()
    }
}

/// Joins `parts` with `sep` between each two.
pub fn join(parts: &Vec<String>, sep: &str) -> (out: String)
    ensures
        out@ == joined(crate::strmap::texts(parts@), sep@),
{
    let ghost all = crate::strmap::texts(parts@);
    let mut out = String::new();
    let mut i: usize = 0;
    while i < parts.len()
        invariant
            i <= parts.len(),
            all == crate::strmap::texts(parts@),
            out@ == joined(all.take(i as int), sep@),
        decreases parts.len() - i,
    {
        if i > 0 {
            out.append(sep);
        }
        out.append(parts[i].as_str());
        assert(all.take(i + 1).drop_last() == all.take(i as int));
        assert(all.take(i + 1).last() == parts@[i as int]@);
        i += 1;
    }
    assert(all.take(i as int) == all);
    out
}

/// `s` with every carriage return that stands before a line feed dropped,
/// reading from the left.
pub open spec fn unix_lines(s: Seq<char>) -> Seq<char>
    decreases s.len(),
{
    if s.len() == 0 {
        s
    } else if s.len() > 1 && s[0] == '\r' && s[1] == '\n' {
        seq!['\n'] + unix_lines(s.skip(2))
    } else {
        seq![s[0]] + unix_lines(s.drop_first())
    }
}

/// Turns every `\r\n` into `\n`.
pub fn normalize_newlines(s: &[char]) -> (out: Vec<char>)
    ensures
        out@ == unix_lines(s@),
{
    let mut out: Vec<char> = Vec::new();
    let mut i: usize = 0;
    assert(s@.skip(0) == s@);
    while i < s.len()
        invariant
            i <= s.len(),
            unix_lines(s@) == out@ + unix_lines(s@.skip(i as int)),
        decreases s.len() - i,
    {
        let ghost rest = s@.skip(i as int);
        if i + 1 < s.len() && s[i] == '\r' && s[i + 1] == '\n' {
            assert(rest.skip(2) == s@.skip(i + 2));
            out.push('\n');
            i += 2;
        } else {
            assert(rest.drop_first() == s@.skip(i + 1));
            out.push(s[i]);
            i += 1;
        }
    }
    assert(unix_lines(s@.skip(i as int)) =~= Seq::<char>::empty());
    assert(out@ =~= unix_lines(s@));
    out
}

/// The 2 texts one after the other.
pub fn cat2(a: &str, b: &str) -> (out: String)
    ensures
        out@ == a@ + b@,
{
    let mut out = a.to_string();
    out.append(b);
    out
}

/// The 3 texts one after the other.
pub fn cat3(a: &str, b: &str, c: &str) -> (out: String)
    ensures
        out@ == a@ + b@ + c@,
{
    let mut out = cat2(a, b);
    out.append(c);
    out
}

/// The 4 texts one after the other.
pub fn cat4(a: &str, b: &str, c: &str, d: &str) -> (out: String)
    ensures
        out@ == a@ + b@ + c@ + d@,
{
    let mut out = cat3(a, b, c);
    out.append(d);
    out
}

/// The 5 texts one after the other.
pub fn cat5(a: &str, b: &str, c: &str, d: &str, e: &str) -> (out: String)
    ensures
        out@ == a@ + b@ + c@ + d@ + e@,
{
    let mut out = cat4(a, b, c, d);
    out.append(e);
    out
}

/// The 6 texts one after the other.
pub fn cat6(a: &str, b: &str, c: &str, d: &str, e: &str, f: &str) -> (out: String)
    ensures
        out@ == a@ + b@ + c@ + d@ + e@ + f@,
{
    let mut out = cat5(a, b, c, d, e);
    out.append(f);
    out
}

/// The 7 texts one after the other.
pub fn cat7(a: &str, b: &str, c: &str, d: &str, e: &str, f: &str, g: &str) -> (out: String)
    ensures
        out@ == a@ + b@ + c@ + d@ + e@ + f@ + g@,
{
    let mut out = cat6(a, b, c, d, e, f);
    out.append(g);
    out
}

/// Trimming keeps the middle: whatever white space stands around a text that
/// neither begins nor ends with white space, the text alone is left; and of
/// white space alone nothing is left.
pub proof fn law_trimmed_keeps_the_middle(a: Seq<char>, middle: Seq<char>, b: Seq<char>)
    requires
        forall|i: int| 0 <= i < a.len() ==> is_white(#[trigger] a[i]),
        forall|i: int| 0 <= i < b.len() ==> is_white(#[trigger] b[i]),
        middle.len() > 0 ==> !is_white(middle[0]) && !is_white(middle.last()),
    ensures
        trimmed(a + middle + b) == middle,
{
    let s = a + middle + b;
    let l = left_stripped(s, Class::White);
    let r = trimmed(s);
    lemma_left_stripped(s, Class::White);
    lemma_right_stripped(l, Class::White);
    let k = s.len() - l.len();
    assert(l =~= s.subrange(k, s.len() as int));
    assert(r =~= l.subrange(0, r.len() as int));
    if middle.len() == 0 {
        if l.len() > 0 {
            assert(l[0] == s[k]);
            if k < a.len() {
                assert(s[k] == a[k]);
            } else {
                assert(s[k] == b[k - a.len()]);
            }
        }
        assert(r =~= middle);
    } else {
        let m = a.len() as int;
        let n = a.len() + middle.len();
        assert(s[m] == middle[0]);
        assert(s[n - 1] == middle.last());
        if k < m {
            assert(l[0] == s[k]);
            assert(s[k] == a[k]);
        } else if k > m {
            assert(Class::White.has(s[m]));
        }
        assert(k == m);
        if r.len() > middle.len() {
            let j = r.len() - 1;
            assert(r.last() == l[j]);
            assert(l[j] == s[k + j]);
            assert(s[k + j] == b[k + j - n]);
        } else if r.len() < middle.len() {
            assert(l[middle.len() - 1] == s[n - 1]);
            assert(Class::White.has(l[middle.len() - 1]));
        }
        assert(r =~= middle);
    }
}

/// The order of strings goes by the first character in which two differ, and
/// where there is none the shorter one comes first.
pub proof fn law_order_by_first_difference(
    common: Seq<char>,
    x: char,
    y: char,
    a: Seq<char>,
    b: Seq<char>,
)
    ensures
        x != y ==> (lex_less(common + seq![x] + a, common + seq![y] + b) <==> x < y),
        lex_less(common, common + seq![x] + a),
        !lex_less(common + seq![x] + a, common),
        !lex_less(common, common),
    decreases common.len(),
{
    let s = common + seq![x] + a;
    let t = common + seq![y] + b;
    if common.len() > 0 {
        let c = common.drop_first();
        law_order_by_first_difference(c, x, y, a, b);
        assert(s.drop_first() =~= c + seq![x] + a);
        assert(t.drop_first() =~= c + seq![y] + b);
        assert(s[0] == common[0] && t[0] == common[0]);
    } else {
        assert(s[0] == x && t[0] == y);
    }
}

/// Joined texts stand one behind the other with the separator between each two.
pub proof fn law_joined_from_the_front(first: Seq<char>, rest: Seq<Seq<char>>, sep: Seq<char>)
    ensures
        joined(Seq::<Seq<char>>::empty(), sep) == Seq::<char>::empty(),
        joined(seq![first], sep) == first,
        rest.len() > 0 ==> joined(seq![first] + rest, sep) == first + sep + joined(rest, sep),
    decreases rest.len(),
{
    let all = seq![first] + rest;
    if rest.len() == 1 {
        assert(all.drop_last() =~= seq![first]);
        assert(joined(all.drop_last(), sep) == first);
        assert(all.last() == rest[0]);
    } else if rest.len() > 1 {
        let fewer = rest.drop_last();
        law_joined_from_the_front(first, fewer, sep);
        assert(all.drop_last() =~= seq![first] + fewer);
        assert(joined(all, sep) =~= first + sep + joined(rest, sep));
    }
}

/// Each of the texts that are joined stands in the result.
pub proof fn law_joined_holds_each(parts: Seq<Seq<char>>, sep: Seq<char>, i: int) -> (at: int)
    requires
        0 <= i < parts.len(),
    ensures
        0 <= at,
        at + parts[i].len() <= joined(parts, sep).len(),
        joined(parts, sep).subrange(at, at + parts[i].len()) == parts[i],
    decreases parts.len(),
{
    let j = joined(parts, sep);
    if parts.len() == 1 {
        assert(j.subrange(0, j.len() as int) =~= parts[0]);
        0
    } else if i == parts.len() - 1 {
        let at = j.len() - parts[i].len();
        assert(j.subrange(at, j.len() as int) =~= parts[i]);
        at
    } else {
        let fewer = parts.drop_last();
        let at = law_joined_holds_each(fewer, sep, i);
        let head = joined(fewer, sep);
        assert(fewer[i] == parts[i]);
        assert(j.subrange(at, at + parts[i].len()) =~= head.subrange(at, at + parts[i].len()));
        at
    }
}

/// Each `\r\n` becomes `\n` where it stands, and a text without carriage returns
/// stays as it is.
pub proof fn law_line_ends(a: Seq<char>, b: Seq<char>)
    ensures
        (a.len() == 0 || a.last() != '\r') ==> unix_lines(a + seq!['\r', '\n'] + b) == unix_lines(a)
            + seq!['\n'] + unix_lines(b),
        !a.contains('\r') ==> unix_lines(a) == a,
    decreases a.len(),
{
    let s = a + seq!['\r', '\n'] + b;
    if a.len() == 0 {
        assert(s.skip(2) =~= b);
        assert(s[0] == '\r' && s[1] == '\n');
        assert(unix_lines(s) =~= unix_lines(a) + seq!['\n'] + unix_lines(b));
    } else {
        let c = a.drop_first();
        assert(s[0] == a[0]);
        if a.len() > 1 {
            assert(s[1] == a[1]);
            assert(c.last() == a.last());
        }
        law_line_ends(c, b);
        assert(s.drop_first() =~= c + seq!['\r', '\n'] + b);
        if a.len() > 1 && a[0] == '\r' && a[1] == '\n' {
            let d = a.skip(2);
            law_line_ends(d, b);
            if d.len() > 0 {
                assert(d.last() == a.last());
            }
            assert(s.skip(2) =~= d + seq!['\r', '\n'] + b);
        }
        if a.last() != '\r' {
            assert(unix_lines(s) =~= unix_lines(a) + seq!['\n'] + unix_lines(b));
        }
        if !a.contains('\r') {
            assert(a.contains(a[0]));
            assert(!c.contains('\r')) by {
                if c.contains('\r') {
                    let k = choose|k: int| 0 <= k < c.len() && c[k] == '\r';
                    assert(a[k + 1] == '\r');
                }
            }
            assert(seq![a[0]] + c =~= a);
        }
    }
}

/// A number can be written with a plus sign and with zeros in front, and what is
/// read as a number holds nothing but a plus sign in front and digits.
pub proof fn law_forms_of_numbers(n: u64, zeros: Seq<char>, s: Seq<char>)
    requires
        forall|i: int| 0 <= i < zeros.len() ==> #[trigger] zeros[i] == '0',
    ensures
        parsed_u64(zeros + decimal(n as nat)) == Some(n),
        parsed_u64(seq!['+'] + zeros + decimal(n as nat)) == Some(n),
        parsed_u64(s) is Some ==> s.len() > 0 && is_digit(s.last()) && forall|i: int|
            0 <= i < s.len() ==> is_digit(#[trigger] s[i]) || (i == 0 && s[i] == '+'),
        parsed_u64(s) is None && s.len() > 0 && all_digits(s) ==> digits_value(s) > u64::MAX,
{
    let d = decimal(n as nat);
    let z = zeros + d;
    let p = seq!['+'] + zeros + d;
    lemma_decimal(n as nat);
    lemma_zeros_in_front(zeros, d);
    assert forall|i: int| 0 <= i < z.len() implies is_digit(#[trigger] z[i]) by {
        if i < zeros.len() {
            assert(z[i] == zeros[i]);
        } else {
            assert(z[i] == d[i - zeros.len()]);
        }
    }
    assert(is_digit(z[0]));
    assert(unsigned_digits(z) == z);
    assert(p[0] == '+');
    assert(unsigned_digits(p) =~= z);
    let u = unsigned_digits(s);
    if parsed_u64(s) is Some {
        assert(is_digit(u[u.len() - 1]));
        assert forall|i: int| 0 <= i < s.len() implies is_digit(#[trigger] s[i]) || (i == 0 && s[i]
            == '+') by {
            if s[0] != '+' {
                assert(u[i] == s[i]);
            } else if i > 0 {
                assert(u[i - 1] == s[i]);
            }
        }
    }
    if s.len() > 0 && all_digits(s) {
        assert(is_digit(s[0]));
    }
}

proof fn lemma_zeros_in_front(zeros: Seq<char>, s: Seq<char>)
    requires
        forall|i: int| 0 <= i < zeros.len() ==> #[trigger] zeros[i] == '0',
    ensures
        digits_value(zeros + s) == digits_value(s),
    decreases zeros.len(),
{
    if zeros.len() > 0 {
        let z = zeros.drop_first();
        assert forall|i: int| 0 <= i < z.len() implies #[trigger] z[i] == '0' by {
            assert(z[i] == zeros[i + 1]);
        }
        lemma_zeros_in_front(z, s);
        lemma_leading_zero(z + s);
        assert(zeros[0] == '0');
        assert(zeros + s =~= seq!['0'] + (z + s));
    } else {
        assert(zeros + s =~= s);
    }
}

/// A printed number has no zero in front, and a negative one is the positive one
/// behind a minus sign.
pub proof fn law_printed_form(n: nat)
    ensures
        decimal(n)[0] == '0' <==> n == 0,
        n == 0 ==> decimal(n).len() == 1,
        signed_decimal(n as int) == decimal(n),
        n > 0 ==> signed_decimal(-(n as int)) == seq!['-'] + decimal(n),
    decreases n,
{
    lemma_decimal(n);
    if n >= 10 {
        law_printed_form(n / 10);
        lemma_decimal(n / 10);
        assert(decimal(n)[0] == decimal(n / 10)[0]);
    }
}

/// White space is the tab to the carriage return, the space, the next-line
/// sign and the Unicode spaces and separators, no-break ones included; no
/// letter, digit or punctuation mark is.
pub proof fn law_white_characters(c: char)
    ensures
        is_white(c) <==> ('\t' <= c <= '\r' || '\u{2000}' <= c <= '\u{200a}' || seq![
            ' ',
            '\u{85}',
            '\u{a0}',
            '\u{1680}',
            '\u{2028}',
            '\u{2029}',
            '\u{202f}',
            '\u{205f}',
            '\u{3000}',
        ].contains(c)),
        '!' <= c <= '~' ==> !is_white(c),
{
    let s = seq![
        ' ',
        '\u{85}',
        '\u{a0}',
        '\u{1680}',
        '\u{2028}',
        '\u{2029}',
        '\u{202f}',
        '\u{205f}',
        '\u{3000}',
    ];
    assert(s[0] == ' ' && s[1] == '\u{85}' && s[2] == '\u{a0}' && s[3] == '\u{1680}' && s[4]
        == '\u{2028}' && s[5] == '\u{2029}' && s[6] == '\u{202f}' && s[7] == '\u{205f}' && s[8]
        == '\u{3000}');
}

/// What can be stripped from the ends of a text.
pub proof fn law_classes(c: char)
    ensures
        Class::White.has(c) <==> is_white(c),
        Class::LineEnd.has(c) <==> c == '\n' || c == ' ',
        Class::Blank.has(c) <==> c == ' ' || c == '\t',
        Class::At.has(c) <==> c == '@',
{
}

} // verus!
