//! The distance that an announcement names, and the image that goes with it.

use vstd::prelude::*;

use crate::patterns::{first_group, DISTANCE};
use crate::text::{cat3, chars_of, ends_with, less, print_u64};

verus! {

/// The extensions of images.
pub open spec fn is_extension(e: Seq<char>) -> bool {
    e == ".png"@ || e == ".jpg"@ || e == ".jpeg"@
}

/// The decimal notation of 2^1024 - 2^970, the least number that is too large
/// to be read as a distance.
pub const TOO_LARGE: &'static str =
    "179769313486231580793728971405303415079934132710037826936173778980444968292764750946649017977587207096330286416692887910946555547851940402630657488671505820681908902000708383676273854845817711531764475730270069855571366959622842914819860834936475292719074168444365510704342711559699508093042880177904174497792";

/// The digits without zeros in front.
pub open spec fn significant(s: Seq<char>) -> Seq<char>
    decreases s.len(),
{
    if s.len() > 0 && s[0] == '0' {
        significant(s.drop_first())
    } else {
        s
    }
}

/// Whether a number is too large to be read as a distance: it has more digits
/// than the least such number, or as many and is not before it in order.
pub open spec fn is_too_large(digits: Seq<char>) -> bool {
    let d = significant(digits);
    d.len() > TOO_LARGE@.len() || (d.len() == TOO_LARGE@.len() && !crate::text::lex_less(
        d,
        TOO_LARGE@,
    ))
}

/// Whether `c` stands between the whole part of a number and its fraction.
pub open spec fn is_point(c: char) -> bool {
    c == '.' || c == ','
}

/// The index of the first point in `s`, or the length where there is none.
pub open spec fn point_index(s: Seq<char>) -> int
    decreases s.len(),
{
    if s.len() == 0 || is_point(s[0]) {
        0
    } else {
        1 + point_index(s.drop_first())
    }
}

/// The whole part of a number.
pub open spec fn whole_part(s: Seq<char>) -> Seq<char> {
    s.take(point_index(s))
}

/// The fraction of a number: what stands behind the point.
pub open spec fn fraction(s: Seq<char>) -> Seq<char> {
    if point_index(s) < s.len() {
        s.skip(point_index(s) + 1)
    } else {
        Seq::empty()
    }
}

/// Whether `s` writes a number: digits, or digits, a point and digits.
pub open spec fn is_number(s: Seq<char>) -> bool {
    &&& whole_part(s).len() > 0
    &&& crate::text::all_digits(whole_part(s))
    &&& point_index(s) < s.len() ==> fraction(s).len() > 0 && crate::text::all_digits(fraction(s))
}

/// The integer nearest to the number that `s` writes, the larger one where two
/// are equally near.
pub open spec fn nearest(s: Seq<char>) -> nat {
    let n = crate::text::digits_value(whole_part(s));
    if fraction(s).len() > 0 && fraction(s)[0] >= '5' {
        n + 1
    } else {
        n
    }
}

/// The distance that `s` writes, rounded to the nearest integer and at most
/// `u32::MAX`; none where `s` writes no number or one that is too large.
pub open spec fn rounded(s: Seq<char>) -> Option<u32> {
    if is_number(s) && !is_too_large(whole_part(s)) {
        Some(
            if nearest(s) <= u32::MAX {
                nearest(s) as u32
            } else {
                u32::MAX
            },
        )
    } else {
        None
    }
}

fn find_point(s: &[char]) -> (i: usize)
    ensures
        i == point_index(s@),
        i <= s@.len(),
{
    let mut i: usize = 0;
    assert(s@.skip(0) == s@);
    while i < s.len() && s[i] != '.' && s[i] != ','
        invariant
            i <= s.len(),
            point_index(s@) == i + point_index(s@.skip(i as int)),
        decreases s.len() - i,
    {
        assert(s@.skip(i as int).drop_first() == s@.skip(i + 1));
        i += 1;
    }
    assert(point_index(s@.skip(i as int)) == 0);
    i
}

fn only_digits(s: &[char]) -> (r: bool)
    ensures
        r == crate::text::all_digits(s@),
{
    let mut i: usize = 0;
    while i < s.len()
        invariant
            i <= s.len(),
            forall|j: int| 0 <= j < i ==> crate::text::is_digit(#[trigger] s@[j]),
        decreases s.len() - i,
    {
        if !('0' <= s[i] && s[i] <= '9') {
            assert(!crate::text::is_digit(s@[i as int]));
            return false;
        }
        i += 1;
    }
    true
}

fn too_large(digits: &[char]) -> (r: bool)
    ensures
        r == is_too_large(digits@),
{
    let mut i: usize = 0;
    assert(digits@.skip(0) == digits@);
    while i < digits.len() && digits[i] == '0'
        invariant
            i <= digits.len(),
            significant(digits@) == significant(digits@.skip(i as int)),
        decreases digits.len() - i,
    {
        assert(digits@.skip(i as int).drop_first() == digits@.skip(i + 1));
        i += 1;
    }
    let d = vstd::slice::slice_subrange(digits, i, digits.len());
    assert(d@ == significant(digits@));
    let limit = chars_of(TOO_LARGE);
    d.len() > limit.len() || (d.len() == limit.len() && !less(d, limit.as_slice()))
}

/// The value of digits, `u32::MAX` where it is larger.
fn saturated(s: &[char]) -> (v: u64)
    requires
        crate::text::all_digits(s@),
    ensures
        v == (if crate::text::digits_value(s@) <= u32::MAX {
            crate::text::digits_value(s@) as int
        } else {
            u32::MAX as int
        }),
{
    let mut v: u64 = 0;
    let mut i: usize = 0;
    while i < s.len()
        invariant
            i <= s.len(),
            crate::text::all_digits(s@),
            v == (if crate::text::digits_value(s@.take(i as int)) <= u32::MAX {
                crate::text::digits_value(s@.take(i as int)) as int
            } else {
                u32::MAX as int
            }),
        decreases s.len() - i,
    {
        assert(crate::text::is_digit(s@[i as int]));
        assert(s@.take(i + 1).drop_last() == s@.take(i as int));
        assert(s@.take(i + 1).last() == s@[i as int]);
        let d: u64 = (s[i] as u32 - 48) as u64;
        v = v * 10 + d;
        if v > u32::MAX as u64 {
            v = u32::MAX as u64;
        }
        i += 1;
    }
    assert(s@.take(i as int) == s@);
    v
}

/// Reads a distance and rounds it to the nearest integer.
pub fn round_km(num: &str) -> (r: Option<u32>)
    ensures
        r == rounded(num@),
{
    let cs = chars_of(num);
    let p = find_point(cs.as_slice());
    let whole = vstd::slice::slice_subrange(cs.as_slice(), 0, p);
    assert(whole@ == whole_part(num@));
    if whole.len() == 0 || !only_digits(whole) {
        return None;
    }
    let mut up: u64 = 0;
    if p < cs.len() {
        let frac = vstd::slice::slice_subrange(cs.as_slice(), p + 1, cs.len());
        assert(frac@ == fraction(num@));
        if frac.len() == 0 || !only_digits(frac) {
            return None;
        }
        if frac[0] >= '5' {
            up = 1;
        }
    }
    if too_large(whole) {
        return None;
    }
    let v = saturated(whole) + up;
    if v > u32::MAX as u64 {
        Some(u32::MAX)
    } else {
        Some(v as u32)
    }
}

/// The distance in kilometers that a text names, rounded to the nearest
/// integer.
pub fn parse_distance_km(raw: &str) -> (r: Option<u32>)
    ensures
        r == (if crate::patterns::regex_matches(DISTANCE@, raw@).len() > 0 {
            rounded(crate::patterns::regex_matches(DISTANCE@, raw@)[0].2)
        } else {
            None
        }),
{
    match first_group(DISTANCE, raw) {
        Some(num) => round_km(num.as_str()),
        None => None,
    }
}

/// Whether a file name is that of an image for the distance.
pub open spec fn is_image_for(name: Seq<char>, km: u32) -> bool {
    let stem_end = "_"@ + crate::text::decimal(km as nat);
    ||| (stem_end + ".png"@).is_suffix_of(name)
    ||| (stem_end + ".jpg"@).is_suffix_of(name)
    ||| (stem_end + ".jpeg"@).is_suffix_of(name)
}

fn has_end(name: &[char], km: u32, extension: &str) -> (r: bool)
    ensures
        r == ("_"@ + crate::text::decimal(km as nat) + extension@).is_suffix_of(name@),
{
    let end = cat3("_", print_u64(km as u64).as_str(), extension);
    let cs = chars_of(end.as_str());
    ends_with(name, cs.as_slice())
}

/// Whether a file name is that of an image for the distance.
pub fn image_for(name: &str, km: u32) -> (r: bool)
    ensures
        r == is_image_for(name@, km),
{
    let cs = chars_of(name);
    has_end(cs.as_slice(), km, ".png") || has_end(cs.as_slice(), km, ".jpg") || has_end(
        cs.as_slice(),
        km,
        ".jpeg",
    )
}

/// The image for a distance among the file names: the first in order of those
/// that end in `_`, the distance and an image's extension.
pub fn image_for_distance(names: &Vec<String>, km: u32) -> (r: Option<String>)
    ensures
        match r {
            Some(name) => {
                &&& crate::strmap::texts(names@).contains(name@)
                &&& is_image_for(name@, km)
                &&& forall|i: int|
                    0 <= i < names@.len() && is_image_for(#[trigger] names@[i]@, km)
                        ==> !crate::text::lex_less(names@[i]@, name@)
            },
            None => forall|i: int|
                0 <= i < names@.len() ==> !is_image_for(#[trigger] names@[i]@, km),
        },
{
    let mut best: Option<usize> = None;
    let mut i: usize = 0;
    while i < names.len()
        invariant
            i <= names.len(),
            match best {
                Some(b) => {
                    &&& b < names.len()
                    &&& is_image_for(names@[b as int]@, km)
                    &&& forall|j: int|
                        0 <= j < i && is_image_for(#[trigger] names@[j]@, km)
                            ==> !crate::text::lex_less(names@[j]@, names@[b as int]@)
                },
                None => forall|j: int| 0 <= j < i ==> !is_image_for(#[trigger] names@[j]@, km),
            },
        decreases names.len() - i,
    {
        if image_for(names[i].as_str(), km) {
            match best {
                Some(b) => {
                    let x = chars_of(names[i].as_str());
                    let y = chars_of(names[b].as_str());
                    if less(x.as_slice(), y.as_slice()) {
                        proof {
                            crate::text::lemma_lex_total(x@, x@);
                            assert forall|j: int|
                                0 <= j < i + 1 && is_image_for(
                                    #[trigger] names@[j]@,
                                    km,
                                ) implies !crate::text::lex_less(names@[j]@, x@) by {
                                if crate::text::lex_less(names@[j]@, x@) && j < i {
                                    crate::text::lemma_lex_transitive(names@[j]@, x@, y@);
                                }
                            }
                        }
                        best = Some(i);
                    }
                },
                None => {
                    proof {
                        crate::text::lemma_lex_total(names@[i as int]@, names@[i as int]@);
                    }
                    best = Some(i);
                },
            }
        }
        i += 1;
    }
    match best {
        Some(b) => {
            assert(crate::strmap::texts(names@)[b as int] == names@[b as int]@);
            Some(names[b].clone())
        },
        None => None,
    }
}

proof fn lemma_end_determines(a: u32, b: u32, e: Seq<char>, f: Seq<char>, name: Seq<char>)
    requires
        is_extension(e),
        is_extension(f),
        ("_"@ + crate::text::decimal(a as nat) + e).is_suffix_of(name),
        ("_"@ + crate::text::decimal(b as nat) + f).is_suffix_of(name),
    ensures
        a == b,
{
    reveal_strlit("_");
    reveal_strlit(".png");
    reveal_strlit(".jpg");
    reveal_strlit(".jpeg");
    let x = crate::text::decimal(a as nat);
    let y = crate::text::decimal(b as nat);
    let s = "_"@ + x + e;
    let t = "_"@ + y + f;
    let n = name.len() as int;
    crate::text::lemma_decimal(a as nat);
    crate::text::lemma_decimal(b as nat);
    assert(forall|i: int| 0 <= i < s.len() ==> s[i] == #[trigger] name[n - s.len() + i]) by {
        assert(name.subrange(n - s.len(), n) =~= s);
        assert forall|i: int| 0 <= i < s.len() implies s[i] == #[trigger] name[n - s.len() + i] by {
            assert(name.subrange(n - s.len(), n)[i] == name[n - s.len() + i]);
        }
    }
    assert(forall|i: int| 0 <= i < t.len() ==> t[i] == #[trigger] name[n - t.len() + i]) by {
        assert(name.subrange(n - t.len(), n) =~= t);
        assert forall|i: int| 0 <= i < t.len() implies t[i] == #[trigger] name[n - t.len() + i] by {
            assert(name.subrange(n - t.len(), n)[i] == name[n - t.len() + i]);
        }
    }
    assert(s[s.len() - 4] == name[n - 4]);
    assert(t[t.len() - 4] == name[n - 4]);
    assert(s[s.len() - 3] == name[n - 3]);
    assert(t[t.len() - 3] == name[n - 3]);
    assert(e.len() == f.len());
    if x.len() < y.len() {
        assert(s[0] == name[n - s.len()]);
        let k = t.len() - s.len();
        assert(t[k] == name[n - t.len() + k]);
        assert(t[k] == y[k - 1]);
        assert(crate::text::is_digit(y[k - 1]));
    } else if y.len() < x.len() {
        assert(t[0] == name[n - t.len()]);
        let k = s.len() - t.len();
        assert(s[k] == name[n - s.len() + k]);
        assert(s[k] == x[k - 1]);
        assert(crate::text::is_digit(x[k - 1]));
    }
    assert forall|i: int| 0 <= i < x.len() implies x[i] == y[i] by {
        assert(s[i + 1] == name[n - s.len() + (i + 1)]);
        assert(t[i + 1] == name[n - t.len() + (i + 1)]);
    }
    assert(x =~= y);
}

/// A file is the image of one distance at most: that for 20 km is never taken
/// for 200 km, nor the other way round.
pub proof fn law_image_of_one_distance(name: Seq<char>, a: u32, b: u32)
    requires
        is_image_for(name, a),
        is_image_for(name, b),
    ensures
        a == b,
{
    let x = "_"@ + crate::text::decimal(a as nat);
    let y = "_"@ + crate::text::decimal(b as nat);
    let e = if (x + ".png"@).is_suffix_of(name) {
        ".png"@
    } else if (x + ".jpg"@).is_suffix_of(name) {
        ".jpg"@
    } else {
        ".jpeg"@
    };
    let f = if (y + ".png"@).is_suffix_of(name) {
        ".png"@
    } else if (y + ".jpg"@).is_suffix_of(name) {
        ".jpg"@
    } else {
        ".jpeg"@
    };
    lemma_end_determines(a, b, e, f, name);
}

/// Whatever stands before the underscore, a name with the distance and an
/// image's extension is that of an image for the distance.
pub proof fn law_any_stem(stem: Seq<char>, km: u32, extension: Seq<char>)
    requires
        is_extension(extension),
    ensures
        is_image_for(stem + "_"@ + crate::text::decimal(km as nat) + extension, km),
{
    let end = "_"@ + crate::text::decimal(km as nat) + extension;
    let name = stem + "_"@ + crate::text::decimal(km as nat) + extension;
    assert(name.subrange(name.len() - end.len(), name.len() as int) =~= end);
}

/// A whole number is kept as it is.
pub proof fn law_whole_numbers_kept(km: u32)
    ensures
        rounded(crate::text::decimal(km as nat)) == Some(km),
{
    let s = crate::text::decimal(km as nat);
    crate::text::lemma_decimal(km as nat);
    lemma_no_point(s);
    assert(s.take(s.len() as int) =~= s);
    lemma_few_digits(km as nat);
    lemma_significant(s);
    lemma_limit_length();
}

/// Ten to the power `k`.
pub open spec fn pow10(k: nat) -> nat
    decreases k,
{
    if k == 0 {
        1
    } else {
        10 * pow10((k - 1) as nat)
    }
}

proof fn lemma_leading_digit(f: Seq<char>)
    requires
        f.len() > 0,
        crate::text::all_digits(f),
    ensures
        (f[0] as int - 48) * pow10((f.len() - 1) as nat) <= crate::text::digits_value(f),
        crate::text::digits_value(f) < (f[0] as int - 47) * pow10((f.len() - 1) as nat),
    decreases f.len(),
{
    let g = f.drop_last();
    let d = f[0] as int - 48;
    assert(crate::text::is_digit(f[f.len() - 1]));
    if f.len() == 1 {
        assert(crate::text::digits_value(g) == 0);
        assert(pow10(0) == 1);
        assert(d * 1 == d && (d + 1) * 1 == d + 1) by (nonlinear_arith);
    } else {
        assert forall|i: int| 0 <= i < g.len() implies crate::text::is_digit(#[trigger] g[i]) by {
            assert(g[i] == f[i]);
        }
        lemma_leading_digit(g);
        let p = pow10((g.len() - 1) as nat) as int;
        assert(pow10((f.len() - 1) as nat) == 10 * p);
        assert(d * (10 * p) == 10 * (d * p)) by (nonlinear_arith);
        assert((d + 1) * (10 * p) == 10 * ((d + 1) * p)) by (nonlinear_arith);
    }
}

/// Rounding up adds at most half a kilometer to the number that was written,
/// and rounding down takes less than half away. The number is the whole part
/// and the fraction divided by the power of ten for its length.
pub proof fn law_nearest(s: Seq<char>)
    requires
        is_number(s),
    ensures
        ({
            let p = pow10(fraction(s).len());
            let value = crate::text::digits_value(whole_part(s)) * p
                + crate::text::digits_value(fraction(s));
            &&& 2 * (nearest(s) * p - value) <= p
            &&& 2 * (value - nearest(s) * p) < p
        }),
{
    let f = fraction(s);
    let n = crate::text::digits_value(whole_part(s)) as int;
    let p = pow10(f.len()) as int;
    let v = crate::text::digits_value(f) as int;
    if f.len() == 0 {
        assert(v == 0);
        assert(p == 1);
        assert(n * 1 == n) by (nonlinear_arith);
    } else {
        lemma_leading_digit(f);
        assert(crate::text::is_digit(f[0]));
        let q = pow10((f.len() - 1) as nat) as int;
        let d = f[0] as int - 48;
        assert(p == 10 * q);
        assert((n + 1) * p == n * p + p) by (nonlinear_arith);
        if f[0] >= '5' {
            assert(d * q >= 5 * q) by (nonlinear_arith)
                requires
                    d >= 5,
                    q >= 0,
            ;
            assert((d + 1) * q <= 10 * q) by (nonlinear_arith)
                requires
                    d <= 9,
                    q >= 0,
            ;
        } else {
            assert((d + 1) * q <= 5 * q) by (nonlinear_arith)
                requires
                    d <= 4,
                    q >= 0,
            ;
            assert(d * q >= 0) by (nonlinear_arith)
                requires
                    d >= 0,
                    q >= 0,
            ;
        }
    }
}

proof fn lemma_no_point(s: Seq<char>)
    requires
        crate::text::all_digits(s),
    ensures
        point_index(s) == s.len(),
    decreases s.len(),
{
    if s.len() > 0 {
        let t = s.drop_first();
        assert forall|i: int| 0 <= i < t.len() implies crate::text::is_digit(#[trigger] t[i]) by {
            assert(t[i] == s[i + 1]);
        }
        assert(crate::text::is_digit(s[0]));
        lemma_no_point(t);
    }
}

proof fn lemma_few_digits(n: nat)
    requires
        n <= u32::MAX,
    ensures
        crate::text::decimal(n).len() <= 10,
{
    reveal_with_fuel(crate::text::decimal, 11);
}

proof fn lemma_significant(s: Seq<char>)
    ensures
        significant(s).len() <= s.len(),
    decreases s.len(),
{
    if s.len() > 0 && s[0] == '0' {
        lemma_significant(s.drop_first());
    }
}

proof fn lemma_limit_length()
    ensures
        TOO_LARGE@.len() > 10,
{
    reveal_strlit(
        "179769313486231580793728971405303415079934132710037826936173778980444968292764750946649017977587207096330286416692887910946555547851940402630657488671505820681908902000708383676273854845817711531764475730270069855571366959622842914819860834936475292719074168444365510704342711559699508093042880177904174497792",
    );
}

proof fn lemma_point_at(w: Seq<char>, p: char, f: Seq<char>)
    requires
        crate::text::all_digits(w),
        p == '.' || p == ',',
    ensures
        point_index(w + seq![p] + f) == w.len(),
    decreases w.len(),
{
    let s = w + seq![p] + f;
    if w.len() == 0 {
        assert(s[0] == p);
    } else {
        let v = w.drop_first();
        assert(crate::text::is_digit(w[0]));
        assert(s[0] == w[0]);
        assert forall|i: int| 0 <= i < v.len() implies crate::text::is_digit(#[trigger] v[i]) by {
            assert(v[i] == w[i + 1]);
        }
        lemma_point_at(v, p, f);
        assert(s.drop_first() =~= v + seq![p] + f);
    }
}

/// A distance is read from its digits: behind a point or a comma only the first
/// digit counts, which rounds up from 5 on. No more than 300 digits before it, so
/// that the number is not too large to be read; above the largest 32-bit number
/// that number is taken.
pub proof fn law_distance_is_rounded(w: Seq<char>, p: char, f: Seq<char>)
    requires
        0 < w.len() <= 300,
        crate::text::all_digits(w),
        crate::text::all_digits(f),
        p == '.' || p == ',',
    ensures
        ({
            let n = crate::text::digits_value(w);
            let up = if f.len() > 0 && f[0] >= '5' {
                n + 1
            } else {
                n
            };
            &&& rounded(w) == Some(
                if n <= 0xffff_ffff {
                    n as u32
                } else {
                    0xffff_ffff
                },
            )
            &&& f.len() > 0 ==> rounded(w + seq![p] + f) == Some(
                if up <= 0xffff_ffff {
                    up as u32
                } else {
                    0xffff_ffff
                },
            )
            &&& f.len() == 0 ==> rounded(w + seq![p] + f) is None
        }),
{
    let s = w + seq![p] + f;
    lemma_no_point(w);
    assert(whole_part(w) =~= w);
    assert(fraction(w) =~= Seq::<char>::empty());
    lemma_point_at(w, p, f);
    assert(whole_part(s) =~= w);
    assert(fraction(s) =~= f);
    lemma_significant(w);
    reveal_strlit(
        "179769313486231580793728971405303415079934132710037826936173778980444968292764750946649017977587207096330286416692887910946555547851940402630657488671505820681908902000708383676273854845817711531764475730270069855571366959622842914819860834936475292719074168444365510704342711559699508093042880177904174497792",
    );
    assert(TOO_LARGE@.len() > 300);
}

/// What is no number is no distance: where a distance is read, there are digits,
/// and behind them nothing, or a point or a comma and digits.
pub proof fn law_only_numbers_are_distances(s: Seq<char>) -> (r: (Seq<char>, Seq<char>))
    requires
        rounded(s) is Some,
    ensures
        r.0.len() > 0,
        crate::text::all_digits(r.0),
        crate::text::all_digits(r.1),
        s == r.0 || (r.1.len() > 0 && (s == r.0 + seq!['.'] + r.1 || s == r.0 + seq![','] + r.1)),
{
    let k = point_index(s);
    lemma_point_found(s);
    if k < s.len() {
        assert(s =~= whole_part(s) + seq![s[k]] + fraction(s));
        (whole_part(s), fraction(s))
    } else {
        assert(whole_part(s) =~= s);
        (s, Seq::empty())
    }
}

proof fn lemma_point_found(s: Seq<char>)
    ensures
        0 <= point_index(s) <= s.len(),
        point_index(s) < s.len() ==> s[point_index(s)] == '.' || s[point_index(s)] == ',',
    decreases s.len(),
{
    if s.len() > 0 && !is_point(s[0]) {
        lemma_point_found(s.drop_first());
    }
}

/// The image of a distance ends in an underscore, the distance and one of the
/// three extensions, with anything before it.
pub proof fn law_shape_of_image_names(name: Seq<char>, km: u32) -> (r: (Seq<char>, Seq<char>))
    requires
        is_image_for(name, km),
    ensures
        name == r.0 + "_"@ + crate::text::decimal(km as nat) + r.1,
        r.1 == ".png"@ || r.1 == ".jpg"@ || r.1 == ".jpeg"@,
{
    let end = "_"@ + crate::text::decimal(km as nat);
    let e = if (end + ".png"@).is_suffix_of(name) {
        ".png"@
    } else if (end + ".jpg"@).is_suffix_of(name) {
        ".jpg"@
    } else {
        ".jpeg"@
    };
    let k = name.len() - (end + e).len();
    assert(name.subrange(k, name.len() as int) =~= end + e);
    let stem = name.take(k);
    assert(name =~= stem + name.subrange(k, name.len() as int));
    assert(name =~= stem + "_"@ + crate::text::decimal(km as nat) + e);
    (stem, e)
}

/// The three extensions of images.
pub proof fn law_extensions(stem: Seq<char>, km: u32)
    ensures
        is_image_for(stem + "_"@ + crate::text::decimal(km as nat) + ".png"@, km),
        is_image_for(stem + "_"@ + crate::text::decimal(km as nat) + ".jpg"@, km),
        is_image_for(stem + "_"@ + crate::text::decimal(km as nat) + ".jpeg"@, km),
{
    law_any_stem(stem, km, ".png"@);
    law_any_stem(stem, km, ".jpg"@);
    law_any_stem(stem, km, ".jpeg"@);
}

/// A number of more than 309 digits, zeros in front left out, is too large to be
/// read as a distance, and one of fewer is not, whatever zeros stand in front.
pub proof fn law_size_of_distances(zeros: Seq<char>, w: Seq<char>)
    requires
        forall|i: int| 0 <= i < zeros.len() ==> #[trigger] zeros[i] == '0',
        w.len() > 0,
        w[0] != '0',
    ensures
        w.len() > 309 ==> is_too_large(zeros + w),
        w.len() < 309 ==> !is_too_large(zeros + w),
        is_too_large(zeros + w) <==> is_too_large(w),
        rounded(w) is Some ==> !is_too_large(whole_part(w)),
{
    lemma_zeros_dropped(zeros, w);
    reveal_strlit(
        "179769313486231580793728971405303415079934132710037826936173778980444968292764750946649017977587207096330286416692887910946555547851940402630657488671505820681908902000708383676273854845817711531764475730270069855571366959622842914819860834936475292719074168444365510704342711559699508093042880177904174497792",
    );
    assert(TOO_LARGE@.len() == 309);
}

proof fn lemma_zeros_dropped(zeros: Seq<char>, w: Seq<char>)
    requires
        forall|i: int| 0 <= i < zeros.len() ==> #[trigger] zeros[i] == '0',
        w.len() > 0,
        w[0] != '0',
    ensures
        significant(zeros + w) == w,
    decreases zeros.len(),
{
    if zeros.len() > 0 {
        let z = zeros.drop_first();
        assert forall|i: int| 0 <= i < z.len() implies #[trigger] z[i] == '0' by {
            assert(z[i] == zeros[i + 1]);
        }
        lemma_zeros_dropped(z, w);
        assert((zeros + w)[0] == zeros[0]);
        assert((zeros + w).drop_first() =~= z + w);
    } else {
        assert(zeros + w =~= w);
    }
}

} // verus!
