//! Predicates on cell text, each with the scanner that decides it.

use vstd::prelude::*;

verus! {

/// The characters of a string, in order.
pub fn text_chars(s: &str) -> (v: Vec<char>)
    ensures
        v@ == s@,
{
    let mut v: Vec<char> = Vec::new();
    for c in it: s.chars()
        invariant
            v@ == it.seq().take(it.index() as int),
    {
        v.push(c);
    }
    v
}

pub open spec fn is_digit(c: char) -> bool {
    '0' <= c && c <= '9'
}

pub open spec fn is_sign(c: char) -> bool {
    c == '+' || c == '-'
}

/// Every character of `s[lo..hi]` is a decimal digit.
pub open spec fn digits_between(s: Seq<char>, lo: int, hi: int) -> bool {
    forall|i: int| lo <= i < hi ==> is_digit(#[trigger] s[i])
}

/// `s[lo..hi]` is `Digit+`, `Digit+ '.' Digit*` or `Digit* '.' Digit+`.
/// The witness `dot` is where the point stands, or `hi` without one.
pub open spec fn mantissa_in(s: Seq<char>, lo: int, hi: int) -> bool {
    exists|dot: int|
        lo <= dot <= hi && #[trigger] digits_between(s, lo, dot) && if dot == hi {
            hi > lo
        } else {
            s[dot] == '.' && digits_between(s, dot + 1, hi) && hi - lo > 1
        }
}

/// `s[lo..hi]` is `('e' | 'E') Sign? Digit+`.
pub open spec fn exponent_in(s: Seq<char>, lo: int, hi: int) -> bool {
    hi - lo >= 2 && (s[lo] == 'e' || s[lo] == 'E') && {
        let first = if is_sign(s[lo + 1]) {
            lo + 2
        } else {
            lo + 1
        };
        first < hi && digits_between(s, first, hi)
    }
}

/// `s[lo..hi]` is a mantissa with an optional exponent behind it.
pub open spec fn decimal_in(s: Seq<char>, lo: int, hi: int) -> bool {
    exists|k: int|
        lo <= k <= hi && #[trigger] mantissa_in(s, lo, k) && (k == hi || exponent_in(s, k, hi))
}

/// `s[lo..hi]` spells `lower`, each letter in either case (`upper` is the
/// same word in capitals).
pub open spec fn word_in(s: Seq<char>, lo: int, hi: int, lower: Seq<char>, upper: Seq<char>) -> bool {
    hi - lo == lower.len() && forall|i: int|
        0 <= i < lower.len() ==> s[lo + i] == #[trigger] lower[i] || s[lo + i] == upper[i]
}

/// `s[lo..hi]` is `inf`, `infinity` or `nan`, in any mix of cases.
pub open spec fn special_in(s: Seq<char>, lo: int, hi: int) -> bool {
    ||| word_in(s, lo, hi, "inf"@, "INF"@)
    ||| word_in(s, lo, hi, "infinity"@, "INFINITY"@)
    ||| word_in(s, lo, hi, "nan"@, "NAN"@)
}

/// Where the part behind an optional leading sign begins.
pub open spec fn unsigned_start(s: Seq<char>) -> int {
    if s.len() > 0 && is_sign(s[0]) {
        1
    } else {
        0
    }
}

/// The text is a floating-point literal:
/// `Sign? ( 'inf' | 'infinity' | 'nan' | Number )`, where
/// `Number ::= ( Digit+ | Digit+ '.' Digit* | Digit* '.' Digit+ ) Exp?` and
/// `Exp ::= 'e' Sign? Digit+`, letters in either case. This is the set of
/// strings that parse as a 64-bit float.
pub open spec fn is_float_literal(s: Seq<char>) -> bool {
    let lo = unsigned_start(s);
    special_in(s, lo, s.len() as int) || decimal_in(s, lo, s.len() as int)
}

fn is_digit_char(c: char) -> (b: bool)
    ensures
        b == is_digit(c),
{
    '0' <= c && c <= '9'
}

fn is_sign_char(c: char) -> (b: bool)
    ensures
        b == is_sign(c),
{
    c == '+' || c == '-'
}

/// The end of the run of digits that begins at `start`.
fn digits_end(s: &Vec<char>, start: usize) -> (end: usize)
    requires
        start <= s.len(),
    ensures
        start <= end <= s.len(),
        digits_between(s@, start as int, end as int),
        end < s.len() ==> !is_digit(s[end as int]),
{
    let mut i: usize = start;
    while i < s.len() && is_digit_char(s[i])
        invariant
            start <= i <= s.len(),
            digits_between(s@, start as int, i as int),
        decreases s.len() - i,
    {
        i += 1;
    }
    i
}

fn word_at(s: &Vec<char>, lo: usize, lower: &str, upper: &str) -> (b: bool)
    requires
        lo <= s.len(),
        lower@.len() == upper@.len(),
    ensures
        b == word_in(s@, lo as int, s.len() as int, lower@, upper@),
{
    let low = text_chars(lower);
    let up = text_chars(upper);
    if s.len() - lo != low.len() {
        return false;
    }
    let mut i: usize = 0;
    while i < low.len()
        invariant
            lo <= s.len(),
            s.len() - lo == low.len(),
            low.len() == up.len(),
            low@ == lower@,
            up@ == upper@,
            0 <= i <= low.len(),
            forall|j: int| 0 <= j < i ==> s[lo + j] == #[trigger] low[j] || s[lo + j] == up[j],
        decreases low.len() - i,
    {
        if s[lo + i] != low[i] && s[lo + i] != up[i] {
            assert(!(s[lo + i] == lower@[i as int] || s[lo + i] == upper@[i as int]));
            return false;
        }
        i += 1;
    }
    true
}

fn exponent_at(s: &Vec<char>, lo: usize) -> (b: bool)
    requires
        lo <= s.len(),
    ensures
        b == exponent_in(s@, lo as int, s.len() as int),
{
    let n = s.len();
    if n - lo < 2 {
        return false;
    }
    if s[lo] != 'e' && s[lo] != 'E' {
        return false;
    }
    let first: usize = if is_sign_char(s[lo + 1]) {
        lo + 2
    } else {
        lo + 1
    };
    let end = digits_end(s, first);
    first < n && end == n
}

/// What the scan of a mantissa found decides whether `s[lo..]` is a decimal
/// number: `a` ends the first run of digits, `b` the mantissa.
proof fn lemma_decimal_scan(s: Seq<char>, lo: int, a: int, b: int)
    requires
        0 <= lo <= a <= b <= s.len(),
        digits_between(s, lo, a),
        a < s.len() ==> !is_digit(s[a]),
        if a < s.len() && s[a] == '.' {
            a + 1 <= b && digits_between(s, a + 1, b) && (b < s.len() ==> !is_digit(s[b]))
        } else {
            b == a
        },
    ensures
        decimal_in(s, lo, s.len() as int) <==> {
            let digits = if a < s.len() && s[a] == '.' {
                b - lo - 1
            } else {
                a - lo
            };
            digits > 0 && (b == s.len() || exponent_in(s, b, s.len() as int))
        },
{
    let n = s.len() as int;
    let dotted = a < n && s[a] == '.';
    let digits = if dotted {
        b - lo - 1
    } else {
        a - lo
    };
    if digits > 0 && (b == n || exponent_in(s, b, n)) {
        assert(digits_between(s, lo, a));
        assert(mantissa_in(s, lo, b));
        assert(decimal_in(s, lo, n));
    }
    if decimal_in(s, lo, n) {
        let k = choose|k: int|
            lo <= k <= n && #[trigger] mantissa_in(s, lo, k) && (k == n || exponent_in(s, k, n));
        let dot = choose|dot: int|
            lo <= dot <= k && #[trigger] digits_between(s, lo, dot) && if dot == k {
                k > lo
            } else {
                s[dot] == '.' && digits_between(s, dot + 1, k) && k - lo > 1
            };
        // The first run of digits ends where the witness says.
        if a < dot {
            assert(is_digit(s[a]));
        }
        if dot < k {
            assert(!is_digit(s[dot]));
            if dot < a {
                assert(is_digit(s[dot]));
            }
            assert(dot == a);
            if b < k {
                assert(is_digit(s[b]));
            }
            if k < n {
                assert(!is_digit(s[k]));
                if k < b {
                    assert(is_digit(s[k]));
                }
            }
            assert(k == b);
        } else {
            if k < n {
                assert(!is_digit(s[k]));
                if k < a {
                    assert(is_digit(s[k]));
                }
                assert(a == k);
                assert(s[a] != '.');
            }
            assert(k == b);
        }
    }
}

/// Whether the text parses as a 64-bit float.
pub fn parses_as_number(s: &Vec<char>) -> (b: bool)
    ensures
        b == is_float_literal(s@),
{
    let n = s.len();
    let lo: usize = if n > 0 && is_sign_char(s[0]) {
        1
    } else {
        0
    };
    proof {
        reveal_strlit("inf");
        reveal_strlit("INF");
        reveal_strlit("infinity");
        reveal_strlit("INFINITY");
        reveal_strlit("nan");
        reveal_strlit("NAN");
    }
    if word_at(s, lo, "inf", "INF") || word_at(s, lo, "infinity", "INFINITY") || word_at(
        s,
        lo,
        "nan",
        "NAN",
    ) {
        return true;
    }
    let a = digits_end(s, lo);
    let dotted = a < n && s[a] == '.';
    let b: usize = if dotted {
        digits_end(s, a + 1)
    } else {
        a
    };
    let digits: usize = if dotted {
        b - lo - 1
    } else {
        a - lo
    };
    proof {
        lemma_decimal_scan(s@, lo as int, a as int, b as int);
    }
    if digits == 0 {
        return false;
    }
    b == n || exponent_at(s, b)
}

/// `String::push`: the character is appended.
#[verifier::external_body]
pub(crate) fn push_char(text: &mut String, c: char)
    ensures
        final(text)@ == old(text)@.push(c),
{
    text.push(c)
}

/// `String::pop`: the last character is removed and returned; an empty
/// string stays empty and gives `None`.
#[verifier::external_body]
pub(crate) fn pop_char(text: &mut String) -> (last: Option<char>)
    ensures
        old(text)@.len() == 0 ==> last is None && final(text)@ == old(text)@,
        old(text)@.len() > 0 ==> last == Some(old(text)@.last()) && final(text)@ == old(
            text,
        )@.drop_last(),
{
    text.pop()
}

/// Whether two texts are the same.
pub fn chars_equal(a: &Vec<char>, b: &Vec<char>) -> (same: bool)
    ensures
        same == (a@ == b@),
{
    if a.len() != b.len() {
        return false;
    }
    let mut i: usize = 0;
    while i < a.len()
        invariant
            a.len() == b.len(),
            0 <= i <= a.len(),
            forall|j: int| 0 <= j < i ==> a[j] == b[j],
        decreases a.len() - i,
    {
        if a[i] != b[i] {
            return false;
        }
        i += 1;
    }
    assert(a@ =~= b@);
    true
}

/// How often `c` occurs in `s`.
pub open spec fn count_char(s: Seq<char>, c: char) -> nat
    decreases s.len(),
{
    if s.len() == 0 {
        0
    } else {
        count_char(s.drop_last(), c) + if s.last() == c {
            1nat
        } else {
            0nat
        }
    }
}

/// The number of fields that `s` falls into when split at each `sep`.
pub open spec fn field_count(s: Seq<char>, sep: char) -> nat {
    count_char(s, sep) + 1
}

/// The number of occurrences of `c`.
pub fn count_occurrences(s: &Vec<char>, c: char) -> (n: usize)
    ensures
        n == count_char(s@, c),
{
    let mut n: usize = 0;
    let mut i: usize = 0;
    while i < s.len()
        invariant
            0 <= i <= s.len(),
            n <= i,
            n == count_char(s@.take(i as int), c),
        decreases s.len() - i,
    {
        assert(s@.take(i + 1).drop_last() == s@.take(i as int));
        if s[i] == c {
            n += 1;
        }
        i += 1;
    }
    assert(s@.take(s.len() as int) == s@);
    n
}

/// `needle` stands in `hay` at offset `at`.
pub open spec fn occurs_at(hay: Seq<char>, needle: Seq<char>, at: int) -> bool {
    0 <= at && at + needle.len() <= hay.len() && forall|j: int|
        0 <= j < needle.len() ==> hay[at + j] == #[trigger] needle[j]
}

/// `needle` is a substring of `hay`; case matters.
pub open spec fn contains_text(hay: Seq<char>, needle: Seq<char>) -> bool {
    exists|at: int| occurs_at(hay, needle, at)
}

fn occurs_at_exec(hay: &Vec<char>, needle: &Vec<char>, at: usize) -> (b: bool)
    requires
        at + needle.len() <= hay.len(),
    ensures
        b == occurs_at(hay@, needle@, at as int),
{
    let mut j: usize = 0;
    while j < needle.len()
        invariant
            at + needle.len() <= hay.len(),
            0 <= j <= needle.len(),
            forall|k: int| 0 <= k < j ==> hay[at + k] == #[trigger] needle[k],
        decreases needle.len() - j,
    {
        if hay[at + j] != needle[j] {
            assert(hay[at + j] != needle@[j as int]);
            return false;
        }
        j += 1;
    }
    true
}

/// Whether `needle` is a substring of `hay`.
pub fn contains_chars(hay: &Vec<char>, needle: &Vec<char>) -> (b: bool)
    ensures
        b == contains_text(hay@, needle@),
{
    if needle.len() > hay.len() {
        return false;
    }
    let last: usize = hay.len() - needle.len();
    let mut at: usize = 0;
    while at <= last
        invariant
            needle.len() <= hay.len(),
            last == hay.len() - needle.len(),
            0 <= at <= last + 1,
            forall|k: int| 0 <= k < at ==> !occurs_at(hay@, needle@, k),
        decreases last + 1 - at,
    {
        if occurs_at_exec(hay, needle, at) {
            return true;
        }
        at += 1;
    }
    false
}

/// The number of lines of a text: a line ends at each line feed, and a last
/// line needs none.
pub open spec fn line_count(s: Seq<char>) -> nat {
    if s.len() == 0 {
        0
    } else {
        count_char(s, '\n') + if s.last() == '\n' {
            0nat
        } else {
            1nat
        }
    }
}

/// The number of lines of `s`.
pub fn count_lines(s: &Vec<char>) -> (n: usize)
    ensures
        n == line_count(s@),
{
    if s.len() == 0 {
        return 0;
    }
    let feeds = count_occurrences(s, '\n');
    if s[s.len() - 1] == '\n' {
        feeds
    } else {
        proof {
            lemma_count_bound(s@.drop_last(), '\n');
        }
        feeds + 1
    }
}

/// No character occurs more often than the text is long.
pub proof fn lemma_count_bound(s: Seq<char>, c: char)
    ensures
        count_char(s, c) <= s.len(),
    decreases s.len(),
{
    if s.len() > 0 {
        lemma_count_bound(s.drop_last(), c);
    }
}

} // verus!
