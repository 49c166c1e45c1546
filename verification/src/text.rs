//! Character-level string helpers shared by the parsers and formatters.
//!
//! Strings are reasoned about through their `Seq<char>` view.
use vstd::prelude::*;

verus! {

broadcast use vstd::string::group_string_axioms;

/// Appends one character to a `String` (`String::push`).
#[verifier::external_body]
pub fn push_char(s: &mut String, c: char)
    ensures
        final(s)@ == old(s)@.push(c),
{
    s.push(c);
}

/// The characters of `s`, in order.
pub fn chars_of(s: &str) -> (v: Vec<char>)
    ensures
        v@ == s@,
{
    let mut v: Vec<char> = Vec::new();
    for c in it: s.chars()
        invariant
            it.seq() == s@,
            v@ == it.seq().take(it.index() as int),
    {
        v.push(c);
    }
    v
}

/// Builds a `String` from a slice of characters.
pub fn string_of(cs: &[char]) -> (s: String)
    ensures
        s@ == cs@,
{
    let mut s = String::new();
    let mut i: usize = 0;
    while i < cs.len()
        invariant
            i <= cs.len(),
            s@ == cs@.take(i as int),
        decreases cs.len() - i,
    {
        push_char(&mut s, cs[i]);
        i = i + 1;
        assert(s@ =~= cs@.take(i as int));
    }
    assert(cs@.take(cs@.len() as int) =~= cs@);
    s
}

/// Builds a `String` from a `&str`.
pub fn owned(s: &str) -> (r: String)
    ensures
        r@ == s@,
{
    let cs = chars_of(s);
    string_of(cs.as_slice())
}

/// Appends the characters of `t` to `s`.
pub fn push_all(s: &mut String, t: &str)
    ensures
        final(s)@ == old(s)@ + t@,
{
    let cs = chars_of(t);
    let mut i: usize = 0;
    while i < cs.len()
        invariant
            i <= cs.len(),
            cs@ == t@,
            s@ == old(s)@ + cs@.take(i as int),
        decreases cs.len() - i,
    {
        push_char(s, cs[i]);
        i = i + 1;
        assert(s@ =~= old(s)@ + cs@.take(i as int));
    }
    assert(cs@.take(cs@.len() as int) =~= cs@);
}

/// Character-wise equality of two strings.
pub fn str_eq(a: &str, b: &str) -> (r: bool)
    ensures
        r == (a@ == b@),
{
    let x = chars_of(a);
    let y = chars_of(b);
    seq_eq(x.as_slice(), y.as_slice())
}

/// Equality of two character slices.
pub fn seq_eq(x: &[char], y: &[char]) -> (r: bool)
    ensures
        r == (x@ == y@),
{
    if x.len() != y.len() {
        return false;
    }
    let mut i: usize = 0;
    while i < x.len()
        invariant
            x.len() == y.len(),
            i <= x.len(),
            forall|k: int| 0 <= k < i ==> x@[k] == y@[k],
        decreases x.len() - i,
    {
        if x[i] != y[i] {
            return false;
        }
        i = i + 1;
    }
    assert(x@ =~= y@);
    true
}

/// The character sequences of a list of strings.
pub open spec fn views(v: Seq<String>) -> Seq<Seq<char>> {
    v.map_values(|t: String| t@)
}

/// Whether `list` holds a string equal to `s`.
pub fn contains_str(list: &[String], s: &str) -> (r: bool)
    ensures
        r == views(list@).contains(s@),
{
    let mut i: usize = 0;
    while i < list.len()
        invariant
            i <= list.len(),
            forall|k: int| 0 <= k < i ==> list@[k]@ != s@,
        decreases list.len() - i,
    {
        if str_eq(list[i].as_str(), s) {
            assert(views(list@)[i as int] == s@);
            return true;
        }
        i = i + 1;
    }
    assert forall|k: int| 0 <= k < list@.len() implies #[trigger] views(list@)[k] != s@ by {}
    false
}

/// Unicode `White_Space` property, as `char::is_whitespace` defines it.
pub open spec fn is_ws(c: char) -> bool {
    ||| ('\u{9}' <= c && c <= '\u{d}')
    ||| c == ' '
    ||| c == '\u{85}'
    ||| c == '\u{a0}'
    ||| c == '\u{1680}'
    ||| ('\u{2000}' <= c && c <= '\u{200a}')
    ||| c == '\u{2028}'
    ||| c == '\u{2029}'
    ||| c == '\u{202f}'
    ||| c == '\u{205f}'
    ||| c == '\u{3000}'
}

/// Executable `is_ws`.
pub fn is_whitespace(c: char) -> (r: bool)
    ensures
        r == is_ws(c),
{
    ('\u{9}' <= c && c <= '\u{d}') || c == ' ' || c == '\u{85}' || c == '\u{a0}' || c == '\u{1680}'
        || ('\u{2000}' <= c && c <= '\u{200a}') || c == '\u{2028}' || c == '\u{2029}' || c
        == '\u{202f}' || c == '\u{205f}' || c == '\u{3000}'
}

/// Number of leading whitespace characters of `s`.
pub open spec fn lead_ws(s: Seq<char>) -> nat
    decreases s.len(),
{
    if s.len() > 0 && is_ws(s[0]) {
        1 + lead_ws(s.drop_first())
    } else {
        0
    }
}

/// Number of trailing whitespace characters of `s`.
pub open spec fn trail_ws(s: Seq<char>) -> nat
    decreases s.len(),
{
    if s.len() > 0 && is_ws(s.last()) {
        1 + trail_ws(s.drop_last())
    } else {
        0
    }
}

/// `s` with leading whitespace removed (`str::trim_start`).
pub open spec fn trim_start(s: Seq<char>) -> Seq<char> {
    s.skip(lead_ws(s) as int)
}

/// `s` with trailing whitespace removed (`str::trim_end`).
pub open spec fn trim_end(s: Seq<char>) -> Seq<char> {
    s.take(s.len() - trail_ws(s))
}

/// `s` with whitespace removed at both ends (`str::trim`).
pub open spec fn trim(s: Seq<char>) -> Seq<char> {
    trim_end(trim_start(s))
}

pub proof fn lemma_lead_ws(s: Seq<char>)
    ensures
        lead_ws(s) <= s.len(),
        forall|k: int| 0 <= k < lead_ws(s) ==> is_ws(#[trigger] s[k]),
        lead_ws(s) < s.len() ==> !is_ws(s[lead_ws(s) as int]),
    decreases s.len(),
{
    if s.len() > 0 && is_ws(s[0]) {
        lemma_lead_ws(s.drop_first());
        assert forall|k: int| 0 <= k < lead_ws(s) implies is_ws(#[trigger] s[k]) by {
            if k > 0 {
                assert(s[k] == s.drop_first()[k - 1]);
            }
        }
    }
}

pub proof fn lemma_trail_ws(s: Seq<char>)
    ensures
        trail_ws(s) <= s.len(),
        forall|k: int| s.len() - trail_ws(s) <= k < s.len() ==> is_ws(#[trigger] s[k]),
        trail_ws(s) < s.len() ==> !is_ws(s[s.len() - trail_ws(s) - 1]),
    decreases s.len(),
{
    if s.len() > 0 && is_ws(s.last()) {
        lemma_trail_ws(s.drop_last());
        assert forall|k: int| s.len() - trail_ws(s) <= k < s.len() implies is_ws(#[trigger] s[k]) by {
            if k < s.len() - 1 {
                assert(s[k] == s.drop_last()[k]);
            }
        }
    }
}

/// `lead_ws(s)` is the length of any whitespace run that starts `s` and
/// is followed by a non-whitespace character or the end.
pub proof fn lemma_lead_ws_is(s: Seq<char>, a: int)
    requires
        0 <= a <= s.len(),
        forall|k: int| 0 <= k < a ==> is_ws(#[trigger] s[k]),
        a < s.len() ==> !is_ws(s[a]),
    ensures
        lead_ws(s) == a,
    decreases s.len(),
{
    if a > 0 {
        assert(is_ws(s[0]));
        let t = s.drop_first();
        assert forall|k: int| 0 <= k < a - 1 implies is_ws(#[trigger] t[k]) by {
            assert(t[k] == s[k + 1]);
        }
        if a - 1 < t.len() {
            assert(t[a - 1] == s[a]);
        }
        lemma_lead_ws_is(t, a - 1);
    }
}

/// `trail_ws(s)` is the length of any whitespace run that ends `s` and
/// is preceded by a non-whitespace character or the start.
pub proof fn lemma_trail_ws_is(s: Seq<char>, b: int)
    requires
        0 <= b <= s.len(),
        forall|k: int| s.len() - b <= k < s.len() ==> is_ws(#[trigger] s[k]),
        b < s.len() ==> !is_ws(s[s.len() - b - 1]),
    ensures
        trail_ws(s) == b,
    decreases s.len(),
{
    if b > 0 {
        assert(is_ws(s[s.len() - 1]));
        let t = s.drop_last();
        assert forall|k: int| t.len() - (b - 1) <= k < t.len() implies is_ws(#[trigger] t[k]) by {
            assert(t[k] == s[k]);
        }
        if b - 1 < t.len() {
            assert(t[t.len() - (b - 1) - 1] == s[s.len() - b - 1]);
        }
        lemma_trail_ws_is(t, b - 1);
    }
}

/// Index of the first non-whitespace character (or the length).
fn first_non_ws(cs: &[char]) -> (i: usize)
    ensures
        i == lead_ws(cs@),
        i <= cs.len(),
{
    proof {
        lemma_lead_ws(cs@);
    }
    let mut i: usize = 0;
    while i < cs.len() && is_whitespace(cs[i])
        invariant
            i <= cs.len(),
            i <= lead_ws(cs@),
            lead_ws(cs@) <= cs@.len(),
            forall|k: int| 0 <= k < lead_ws(cs@) ==> is_ws(#[trigger] cs@[k]),
            lead_ws(cs@) < cs@.len() ==> !is_ws(cs@[lead_ws(cs@) as int]),
        decreases cs.len() - i,
    {
        i = i + 1;
    }
    i
}

/// Number of trailing whitespace characters, computed.
fn count_trailing_ws(cs: &[char]) -> (n: usize)
    ensures
        n == trail_ws(cs@),
        n <= cs.len(),
{
    proof {
        lemma_trail_ws(cs@);
    }
    let mut n: usize = 0;
    while n < cs.len() && is_whitespace(cs[cs.len() - 1 - n])
        invariant
            n <= cs.len(),
            n <= trail_ws(cs@),
            trail_ws(cs@) <= cs@.len(),
            forall|k: int| cs@.len() - trail_ws(cs@) <= k < cs@.len() ==> is_ws(#[trigger] cs@[k]),
            trail_ws(cs@) < cs@.len() ==> !is_ws(cs@[cs@.len() - trail_ws(cs@) - 1]),
        decreases cs.len() - n,
    {
        n = n + 1;
    }
    n
}

/// The characters of `cs` with whitespace removed at both ends.
pub fn trim_chars(cs: &[char]) -> (r: Vec<char>)
    ensures
        r@ == trim(cs@),
{
    let a = first_non_ws(cs);
    let mut mid: Vec<char> = Vec::new();
    let mut i = a;
    while i < cs.len()
        invariant
            a <= i <= cs.len(),
            mid@ == cs@.subrange(a as int, i as int),
        decreases cs.len() - i,
    {
        mid.push(cs[i]);
        i = i + 1;
        assert(mid@ =~= cs@.subrange(a as int, i as int));
    }
    assert(mid@ =~= trim_start(cs@));
    let t = count_trailing_ws(mid.as_slice());
    let keep = mid.len() - t;
    let mut r: Vec<char> = Vec::new();
    let mut j: usize = 0;
    while j < keep
        invariant
            keep <= mid.len(),
            j <= keep,
            r@ == mid@.take(j as int),
        decreases keep - j,
    {
        r.push(mid[j]);
        j = j + 1;
        assert(r@ =~= mid@.take(j as int));
    }
    r
}

/// `str::trim` as an owned `String`.
pub fn trim_str(s: &str) -> (r: String)
    ensures
        r@ == trim(s@),
{
    let cs = chars_of(s);
    let t = trim_chars(cs.as_slice());
    string_of(t.as_slice())
}

/// Whether `p` is a prefix of `s`.
pub open spec fn is_prefix(p: Seq<char>, s: Seq<char>) -> bool {
    p.len() <= s.len() && s.take(p.len() as int) == p
}

/// Executable prefix test (`str::starts_with`).
pub fn starts_with(s: &str, p: &str) -> (r: bool)
    ensures
        r == is_prefix(p@, s@),
{
    let x = chars_of(s);
    let y = chars_of(p);
    if y.len() > x.len() {
        return false;
    }
    let mut i: usize = 0;
    while i < y.len()
        invariant
            x@ == s@,
            y@ == p@,
            y.len() <= x.len(),
            i <= y.len(),
            forall|k: int| 0 <= k < i ==> x@[k] == y@[k],
        decreases y.len() - i,
    {
        if x[i] != y[i] {
            assert(x@.take(y@.len() as int)[i as int] == x@[i as int]);
            assert(x@.take(y@.len() as int) != y@);
            return false;
        }
        i = i + 1;
    }
    assert(x@.take(y@.len() as int) =~= y@);
    true
}

/// Whether `c` occurs in `s`.
pub fn has_char(s: &[char], c: char) -> (r: bool)
    ensures
        r == s@.contains(c),
{
    let mut i: usize = 0;
    while i < s.len()
        invariant
            i <= s.len(),
            forall|k: int| 0 <= k < i ==> s@[k] != c,
        decreases s.len() - i,
    {
        if s[i] == c {
            return true;
        }
        i = i + 1;
    }
    false
}

// ── decimal numbers ───────────────────────────────────────────────────

/// The ASCII digit for `d` (`0 <= d < 10`).
pub open spec fn digit_char(d: nat) -> char {
    (('0' as nat) + d) as char
}

/// Decimal representation of `n` without sign or leading zeros.
pub open spec fn dec(n: nat) -> Seq<char>
    decreases n,
{
    if n < 10 {
        seq![digit_char(n)]
    } else {
        dec(n / 10).push(digit_char(n % 10))
    }
}

/// Decimal representation of a signed number.
pub open spec fn dec_int(n: int) -> Seq<char> {
    if n < 0 {
        seq!['-'] + dec((-n) as nat)
    } else {
        dec(n as nat)
    }
}

fn digit(d: u64) -> (c: char)
    requires
        d < 10,
    ensures
        c == digit_char(d as nat),
{
    if d == 0 {
        '0'
    } else if d == 1 {
        '1'
    } else if d == 2 {
        '2'
    } else if d == 3 {
        '3'
    } else if d == 4 {
        '4'
    } else if d == 5 {
        '5'
    } else if d == 6 {
        '6'
    } else if d == 7 {
        '7'
    } else if d == 8 {
        '8'
    } else {
        '9'
    }
}

/// Decimal digits of `n`, computed.
fn dec_chars(n: u64) -> (r: Vec<char>)
    ensures
        r@ == dec(n as nat),
    decreases n,
{
    if n < 10 {
        let mut v = Vec::new();
        v.push(digit(n));
        assert(v@ =~= seq![digit_char(n as nat)]);
        v
    } else {
        let mut v = dec_chars(n / 10);
        v.push(digit(n % 10));
        v
    }
}

/// `u64::to_string`.
pub fn u64_to_string(n: u64) -> (s: String)
    ensures
        s@ == dec(n as nat),
{
    let v = dec_chars(n);
    string_of(v.as_slice())
}

/// `i64::to_string`.
pub fn i64_to_string(n: i64) -> (s: String)
    ensures
        s@ == dec_int(n as int),
{
    if n < 0 {
        let m: u64 = if n == i64::MIN {
            9223372036854775808u64
        } else {
            (-n) as u64
        };
        let mut s = String::new();
        push_char(&mut s, '-');
        let d = u64_to_string(m);
        push_all(&mut s, d.as_str());
        assert(s@ =~= seq!['-'] + dec((-n) as nat));
        s
    } else {
        u64_to_string(n as u64)
    }
}

/// Whether `c` is an ASCII decimal digit.
pub open spec fn is_digit(c: char) -> bool {
    '0' <= c && c <= '9'
}

/// Value of a digit character.
pub open spec fn digit_val(c: char) -> int {
    (c as int) - ('0' as int)
}

/// Value of a string of decimal digits.
pub open spec fn digits_value(s: Seq<char>) -> int
    decreases s.len(),
{
    if s.len() == 0 {
        0
    } else {
        digits_value(s.drop_last()) * 10 + digit_val(s.last())
    }
}

/// All characters of `s` are ASCII digits.
pub open spec fn all_digits(s: Seq<char>) -> bool {
    forall|k: int| 0 <= k < s.len() ==> is_digit(#[trigger] s[k])
}

/// The value that a signed decimal literal denotes, if it is one:
/// an optional `+` or `-` followed by at least one ASCII digit.
pub open spec fn signed_literal(s: Seq<char>) -> Option<int> {
    if s.len() > 0 && (s[0] == '+' || s[0] == '-') {
        let rest = s.drop_first();
        if rest.len() > 0 && all_digits(rest) {
            Some(if s[0] == '-' { -digits_value(rest) } else { digits_value(rest) })
        } else {
            None
        }
    } else if s.len() > 0 && all_digits(s) {
        Some(digits_value(s))
    } else {
        None
    }
}

/// The value that an unsigned decimal literal denotes, if it is one:
/// an optional `+` followed by at least one ASCII digit.
pub open spec fn unsigned_literal(s: Seq<char>) -> Option<int> {
    if s.len() > 0 && s[0] == '-' {
        None
    } else {
        signed_literal(s)
    }
}

/// What `str::parse::<i32>` gives: the literal's value when it fits.
pub open spec fn parse_i32_spec(s: Seq<char>) -> Option<i32> {
    match signed_literal(s) {
        Some(v) => if i32::MIN <= v <= i32::MAX { Some(v as i32) } else { None },
        None => None,
    }
}

/// What `str::parse::<u64>` gives: the literal's value when it fits.
pub open spec fn parse_u64_spec(s: Seq<char>) -> Option<u64> {
    match unsigned_literal(s) {
        Some(v) => if 0 <= v <= u64::MAX { Some(v as u64) } else { None },
        None => None,
    }
}

pub proof fn lemma_digits_value_nonneg(s: Seq<char>)
    requires
        all_digits(s),
    ensures
        digits_value(s) >= 0,
    decreases s.len(),
{
    if s.len() > 0 {
        assert(all_digits(s.drop_last())) by {
            assert forall|k: int| 0 <= k < s.drop_last().len() implies is_digit(
                #[trigger] s.drop_last()[k],
            ) by {
                assert(s.drop_last()[k] == s[k]);
            }
        }
        lemma_digits_value_nonneg(s.drop_last());
        assert(is_digit(s[s.len() - 1]));
    }
}

/// Reads the digits `cs[start..]` as a number, or `None` when the value
/// exceeds `bound` (or when a non-digit occurs, reported separately).
/// Returns `(all digits?, value if within bound)`.
fn read_digits(cs: &[char], start: usize, bound: u64) -> (r: (bool, Option<u64>))
    requires
        start <= cs.len(),
        bound >= 9,
    ensures
        r.0 == all_digits(cs@.skip(start as int)),
        r.0 ==> (match r.1 {
            Some(v) => v as int == digits_value(cs@.skip(start as int)) && v <= bound,
            None => digits_value(cs@.skip(start as int)) > bound,
        }),
{
    let mut i = start;
    let mut acc: u64 = 0;
    let mut over = false;
    while i < cs.len()
        invariant
            bound >= 9,
            start <= i <= cs.len(),
            all_digits(cs@.subrange(start as int, i as int)),
            !over ==> acc as int == digits_value(cs@.subrange(start as int, i as int)) && acc
                <= bound,
            over ==> digits_value(cs@.subrange(start as int, i as int)) > bound,
        decreases cs.len() - i,
    {
        let c = cs[i];
        if !('0' <= c && c <= '9') {
            assert(cs@.skip(start as int)[i - start] == c);
            return (false, None);
        }
        let d = (c as u32 - '0' as u32) as u64;
        let ghost prev = cs@.subrange(start as int, i as int);
        let ghost next = cs@.subrange(start as int, i + 1);
        assert(next.drop_last() =~= prev);
        assert(next.last() == c);
        assert(all_digits(next)) by {
            assert forall|k: int| 0 <= k < next.len() implies is_digit(#[trigger] next[k]) by {
                if k < prev.len() {
                    assert(next[k] == prev[k]);
                }
            }
        }
        proof {
            lemma_digits_value_nonneg(prev);
        }
        if !over {
            if acc > (bound - d) / 10 {
                over = true;
                assert(digits_value(next) == digits_value(prev) * 10 + d);
                assert(acc * 10 + d > bound) by (nonlinear_arith)
                    requires
                        acc > (bound - d) / 10,
                        d <= bound || true,
                        d < 10,
                ;
            } else {
                assert(acc * 10 + d <= bound) by (nonlinear_arith)
                    requires
                        acc <= (bound - d) / 10,
                        d < 10,
                ;
                acc = acc * 10 + d;
            }
        } else {
            assert(digits_value(next) == digits_value(prev) * 10 + d);
            assert(digits_value(prev) * 10 + d > bound) by (nonlinear_arith)
                requires
                    digits_value(prev) > bound,
                    d >= 0,
            ;
        }
        i = i + 1;
    }
    assert(cs@.subrange(start as int, cs.len() as int) =~= cs@.skip(start as int));
    if over {
        (true, None)
    } else {
        (true, Some(acc))
    }
}

/// `str::parse::<i32>`.
pub fn parse_i32(s: &str) -> (r: Option<i32>)
    ensures
        r == parse_i32_spec(s@),
{
    let cs = chars_of(s);
    parse_i32_chars(cs.as_slice())
}

/// `str::parse::<i32>` on the characters of a string.
pub fn parse_i32_chars(cs: &[char]) -> (r: Option<i32>)
    ensures
        r == parse_i32_spec(cs@),
{
    if cs.len() == 0 {
        return None;
    }
    let neg = cs[0] == '-';
    let signed = cs[0] == '-' || cs[0] == '+';
    let start: usize = if signed { 1 } else { 0 };
    if signed && cs.len() == 1 {
        return None;
    }
    assert(cs@.skip(1) =~= cs@.drop_first());
    assert(cs@.skip(0) =~= cs@);
    let bound: u64 = if neg { 2147483648 } else { 2147483647 };
    let (ok, val) = read_digits(cs, start, bound);
    if !ok {
        return None;
    }
    match val {
        None => None,
        Some(v) => {
            if neg {
                Some((0 - (v as i64)) as i32)
            } else {
                Some(v as i32)
            }
        },
    }
}

/// `str::parse::<u64>`.
pub fn parse_u64(s: &str) -> (r: Option<u64>)
    ensures
        r == parse_u64_spec(s@),
{
    let cs = chars_of(s);
    if cs.len() == 0 || cs[0] == '-' {
        return None;
    }
    let signed = cs[0] == '+';
    let start: usize = if signed { 1 } else { 0 };
    if signed && cs.len() == 1 {
        return None;
    }
    assert(cs@.skip(1) =~= cs@.drop_first());
    assert(cs@.skip(0) =~= cs@);
    let (ok, val) = read_digits(cs.as_slice(), start, u64::MAX);
    if !ok {
        return None;
    }
    val
}

// ── searching and splitting ──────────────────────────────────────────

/// Index of the first `c` in `s`, or `s.len()` when there is none.
pub open spec fn idx_of(s: Seq<char>, c: char) -> int
    decreases s.len(),
{
    if s.len() == 0 {
        0
    } else if s[0] == c {
        0
    } else {
        1 + idx_of(s.drop_first(), c)
    }
}

pub proof fn lemma_idx_of(s: Seq<char>, c: char)
    ensures
        0 <= idx_of(s, c) <= s.len(),
        idx_of(s, c) < s.len() <==> s.contains(c),
        idx_of(s, c) < s.len() ==> s[idx_of(s, c)] == c,
        forall|k: int| 0 <= k < idx_of(s, c) ==> s[k] != c,
    decreases s.len(),
{
    if s.len() > 0 && s[0] != c {
        lemma_idx_of(s.drop_first(), c);
        assert forall|k: int| 0 <= k < idx_of(s, c) implies s[k] != c by {
            if k > 0 {
                assert(s[k] == s.drop_first()[k - 1]);
            }
        }
        if s.contains(c) {
            let w = choose|w: int| 0 <= w < s.len() && s[w] == c;
            assert(s.drop_first()[w - 1] == c);
        }
        if s.drop_first().contains(c) {
            let w = choose|w: int| 0 <= w < s.drop_first().len() && s.drop_first()[w] == c;
            assert(s[w + 1] == c);
        }
    } else if s.len() > 0 {
        assert(s.contains(c)) by {
            assert(s[0] == c);
        }
    }
}

/// Index of the first `c` in `cs` (`cs.len()` when absent).
pub fn find_char(cs: &[char], c: char) -> (i: usize)
    ensures
        i == idx_of(cs@, c),
        i <= cs.len(),
{
    proof {
        lemma_idx_of(cs@, c);
    }
    let mut i: usize = 0;
    while i < cs.len() && cs[i] != c
        invariant
            i <= cs.len(),
            i <= idx_of(cs@, c),
            0 <= idx_of(cs@, c) <= cs@.len(),
            idx_of(cs@, c) < cs@.len() ==> cs@[idx_of(cs@, c)] == c,
            forall|k: int| 0 <= k < idx_of(cs@, c) ==> cs@[k] != c,
        decreases cs.len() - i,
    {
        i = i + 1;
    }
    i
}

/// The characters `cs[a..b]` as a new vector.
pub fn slice_of(cs: &[char], a: usize, b: usize) -> (r: Vec<char>)
    requires
        a <= b <= cs.len(),
    ensures
        r@ == cs@.subrange(a as int, b as int),
{
    let mut r: Vec<char> = Vec::new();
    let mut i = a;
    while i < b
        invariant
            a <= i <= b <= cs.len(),
            r@ == cs@.subrange(a as int, i as int),
        decreases b - i,
    {
        r.push(cs[i]);
        i = i + 1;
        assert(r@ =~= cs@.subrange(a as int, i as int));
    }
    r
}

/// The pieces of `s` between occurrences of `c` (`str::split`).
pub open spec fn split_on(s: Seq<char>, c: char) -> Seq<Seq<char>>
    decreases s.len(),
{
    if idx_of(s, c) < s.len() {
        proof {
            lemma_idx_of(s, c);
        }
        seq![s.take(idx_of(s, c))] + split_on(s.skip(idx_of(s, c) + 1), c)
    } else {
        seq![s]
    }
}

/// Splits `cs` at every `c`.
pub fn split_chars(cs: &[char], c: char) -> (r: Vec<Vec<char>>)
    ensures
        r@.map_values(|p: Vec<char>| p@) == split_on(cs@, c),
{
    let mut out: Vec<Vec<char>> = Vec::new();
    let mut start: usize = 0;
    assert(cs@.skip(0) =~= cs@);
    assert(out@.map_values(|p: Vec<char>| p@) =~= Seq::<Seq<char>>::empty());
    loop
        invariant
            start <= cs.len(),
            out@.map_values(|p: Vec<char>| p@) + split_on(cs@.skip(start as int), c) == split_on(
                cs@,
                c,
            ),
        decreases cs.len() - start,
    {
        let rest = slice_of(cs, start, cs.len());
        assert(rest@ =~= cs@.skip(start as int));
        let k = find_char(rest.as_slice(), c);
        proof {
            lemma_idx_of(rest@, c);
        }
        if k < rest.len() {
            let piece = slice_of(rest.as_slice(), 0, k);
            assert(piece@ =~= rest@.take(k as int));
            let ghost before = out@.map_values(|p: Vec<char>| p@);
            out.push(piece);
            assert(rest@.skip(k + 1) =~= cs@.skip(start + k + 1));
            assert(out@.map_values(|p: Vec<char>| p@) =~= before.push(rest@.take(k as int)));
            assert(split_on(rest@, c) == seq![rest@.take(k as int)] + split_on(rest@.skip(k + 1), c));
            assert(out@.map_values(|p: Vec<char>| p@) + split_on(cs@.skip(start + k + 1), c)
                =~= before + split_on(rest@, c));
            start = start + k + 1;
        } else {
            let ghost before = out@.map_values(|p: Vec<char>| p@);
            out.push(rest);
            assert(out@.map_values(|p: Vec<char>| p@) =~= before + split_on(cs@.skip(start as int), c));
            return out;
        }
    }
}

/// Length of the run of non-whitespace characters that starts `s`.
pub open spec fn word_len(s: Seq<char>) -> nat
    decreases s.len(),
{
    if s.len() > 0 && !is_ws(s[0]) {
        1 + word_len(s.drop_first())
    } else {
        0
    }
}

/// The whitespace-separated words of `s` (`str::split_whitespace`).
pub open spec fn words(s: Seq<char>) -> Seq<Seq<char>>
    decreases s.len(),
{
    if s.len() == 0 {
        seq![]
    } else if is_ws(s[0]) {
        words(s.drop_first())
    } else {
        proof {
            lemma_word_len(s);
        }
        seq![s.take(word_len(s) as int)] + words(s.skip(word_len(s) as int))
    }
}

pub proof fn lemma_word_len(s: Seq<char>)
    ensures
        word_len(s) <= s.len(),
        s.len() > 0 && !is_ws(s[0]) ==> word_len(s) >= 1,
        forall|k: int| 0 <= k < word_len(s) ==> !is_ws(#[trigger] s[k]),
        word_len(s) < s.len() ==> is_ws(s[word_len(s) as int]),
    decreases s.len(),
{
    if s.len() > 0 && !is_ws(s[0]) {
        lemma_word_len(s.drop_first());
        assert forall|k: int| 0 <= k < word_len(s) implies !is_ws(#[trigger] s[k]) by {
            if k > 0 {
                assert(s[k] == s.drop_first()[k - 1]);
            }
        }
    }
}

/// Splits `cs` into its whitespace-separated words.
pub fn split_words(cs: &[char]) -> (r: Vec<Vec<char>>)
    ensures
        r@.map_values(|p: Vec<char>| p@) == words(cs@),
{
    let mut out: Vec<Vec<char>> = Vec::new();
    let mut i: usize = 0;
    assert(cs@.skip(0) =~= cs@);
    assert(out@.map_values(|p: Vec<char>| p@) =~= Seq::<Seq<char>>::empty());
    while i < cs.len()
        invariant
            i <= cs.len(),
            out@.map_values(|p: Vec<char>| p@) + words(cs@.skip(i as int)) == words(cs@),
        decreases cs.len() - i,
    {
        let ghost tail = cs@.skip(i as int);
        if is_whitespace(cs[i]) {
            assert(tail.drop_first() =~= cs@.skip(i + 1));
            i = i + 1;
        } else {
            proof {
                lemma_word_len(tail);
            }
            let mut j = i + 1;
            while j < cs.len() && !is_whitespace(cs[j])
                invariant
                    i < j <= cs.len(),
                    tail == cs@.skip(i as int),
                    j - i <= word_len(tail),
                    word_len(tail) <= tail.len(),
                    forall|k: int| 0 <= k < word_len(tail) ==> !is_ws(#[trigger] tail[k]),
                    word_len(tail) < tail.len() ==> is_ws(tail[word_len(tail) as int]),
                decreases cs.len() - j,
            {
                assert(tail[j - i] == cs@[j as int]);
                j = j + 1;
            }
            proof {
                if j < cs.len() {
                    assert(tail[j - i] == cs@[j as int]);
                }
            }
            assert(j - i == word_len(tail));
            let w = slice_of(cs, i, j);
            assert(w@ =~= tail.take(word_len(tail) as int));
            assert(tail.skip(word_len(tail) as int) =~= cs@.skip(j as int));
            let ghost before = out@.map_values(|p: Vec<char>| p@);
            out.push(w);
            assert(out@.map_values(|p: Vec<char>| p@) =~= before.push(w@));
            assert(words(tail) == seq![w@] + words(cs@.skip(j as int)));
            assert(out@.map_values(|p: Vec<char>| p@) + words(cs@.skip(j as int)) =~= before
                + words(tail));
            i = j;
        }
    }
    assert(words(cs@.skip(i as int)) =~= Seq::<Seq<char>>::empty());
    assert(out@.map_values(|p: Vec<char>| p@) =~= words(cs@));
    out
}

// ── substring search ─────────────────────────────────────────────────

/// `pat` occurs in `s` at position `i`.
pub open spec fn occurs_at(s: Seq<char>, pat: Seq<char>, i: int) -> bool {
    0 <= i && i + pat.len() <= s.len() && s.subrange(i, i + pat.len()) == pat
}

/// Position of the first occurrence of `pat` in `s` (`str::find`).
pub open spec fn find_spec(s: Seq<char>, pat: Seq<char>) -> Option<int> {
    if exists|i: int| occurs_at(s, pat, i) {
        Some(choose|i: int| occurs_at(s, pat, i) && forall|j: int| 0 <= j < i ==> !occurs_at(s, pat, j))
    } else {
        None
    }
}

/// The first occurrence of `pat` in `s` is at `i` when `pat` occurs at `i`
/// and at no earlier position.
pub proof fn lemma_find_first(s: Seq<char>, pat: Seq<char>, i: int)
    requires
        occurs_at(s, pat, i),
        forall|j: int| 0 <= j < i ==> !occurs_at(s, pat, j),
    ensures
        find_spec(s, pat) == Some(i),
{
    let c = choose|x: int| occurs_at(s, pat, x) && forall|j: int| 0 <= j < x ==> !occurs_at(s, pat, j);
    assert(occurs_at(s, pat, c) && forall|j: int| 0 <= j < c ==> !occurs_at(s, pat, j));
    if c < i {
        assert(!occurs_at(s, pat, c));
    }
    if c > i {
        assert(!occurs_at(s, pat, i));
    }
}

/// Whether `pat` occurs in `cs` at position `i`, computed.
fn occurs_here(cs: &[char], pat: &[char], i: usize) -> (r: bool)
    ensures
        r == occurs_at(cs@, pat@, i as int),
{
    if i > cs.len() || pat.len() > cs.len() - i {
        return false;
    }
    let mut k: usize = 0;
    while k < pat.len()
        invariant
            i + pat.len() <= cs.len(),
            k <= pat.len(),
            forall|j: int| 0 <= j < k ==> cs@[i + j] == pat@[j],
        decreases pat.len() - k,
    {
        if cs[i + k] != pat[k] {
            assert(cs@.subrange(i as int, i + pat.len())[k as int] != pat@[k as int]);
            return false;
        }
        k = k + 1;
    }
    assert(cs@.subrange(i as int, i + pat.len()) =~= pat@);
    true
}

/// `str::find` on character slices.
pub fn find_seq(cs: &[char], pat: &[char]) -> (r: Option<usize>)
    ensures
        match r {
            Some(i) => find_spec(cs@, pat@) == Some(i as int) && i + pat@.len() <= cs@.len(),
            None => find_spec(cs@, pat@) is None,
        },
{
    let mut i: usize = 0;
    loop
        invariant
            i <= cs.len(),
            forall|j: int| 0 <= j < i ==> !occurs_at(cs@, pat@, j),
        ensures
            forall|j: int| 0 <= j <= cs.len() ==> !occurs_at(cs@, pat@, j),
        decreases cs.len() - i,
    {
        if occurs_here(cs, pat, i) {
            let ghost w = choose|w: int|
                occurs_at(cs@, pat@, w) && forall|j: int| 0 <= j < w ==> !occurs_at(cs@, pat@, j);
            assert(occurs_at(cs@, pat@, i as int) && forall|j: int|
                0 <= j < i ==> !occurs_at(cs@, pat@, j));
            assert(w == i) by {
                if w < i {
                } else if w > i {
                }
            }
            return Some(i);
        }
        if i == cs.len() {
            break;
        }
        i = i + 1;
    }
    assert forall|j: int| !occurs_at(cs@, pat@, j) by {
        if 0 <= j <= cs.len() {
        }
    }
    None
}


// ── ordering ─────────────────────────────────────────────────────────

/// Lexicographic order of strings by character, as `str`'s `Ord` orders
/// them (UTF-8 byte order is code point order).
pub open spec fn str_lt(a: Seq<char>, b: Seq<char>) -> bool
    decreases a.len(),
{
    if a.len() == 0 {
        b.len() > 0
    } else if b.len() == 0 {
        false
    } else if a[0] != b[0] {
        (a[0] as int) < (b[0] as int)
    } else {
        str_lt(a.drop_first(), b.drop_first())
    }
}

/// No string is below itself.
pub proof fn lemma_str_lt_irreflexive(a: Seq<char>)
    ensures
        !str_lt(a, a),
    decreases a.len(),
{
    if a.len() > 0 {
        lemma_str_lt_irreflexive(a.drop_first());
    }
}

/// Of two different strings one is below the other.
pub proof fn lemma_str_lt_total(a: Seq<char>, b: Seq<char>)
    ensures
        a == b || str_lt(a, b) || str_lt(b, a),
    decreases a.len(),
{
    if a.len() > 0 && b.len() > 0 && a[0] == b[0] {
        lemma_str_lt_total(a.drop_first(), b.drop_first());
        if a.drop_first() == b.drop_first() {
            assert(a =~= seq![a[0]] + a.drop_first());
            assert(b =~= seq![b[0]] + b.drop_first());
        }
    } else if a.len() == 0 && b.len() == 0 {
        assert(a =~= b);
    } else if a.len() > 0 && b.len() > 0 {
        assert((a[0] as int) != (b[0] as int));
    }
}

/// The order is transitive.
pub proof fn lemma_str_lt_transitive(a: Seq<char>, b: Seq<char>, c: Seq<char>)
    requires
        str_lt(a, b),
        str_lt(b, c),
    ensures
        str_lt(a, c),
    decreases a.len(),
{
    if a.len() > 0 && b.len() > 0 && c.len() > 0 && a[0] == b[0] && b[0] == c[0] {
        lemma_str_lt_transitive(a.drop_first(), b.drop_first(), c.drop_first());
    }
}

/// The order is asymmetric.
pub proof fn lemma_str_lt_asymmetric(a: Seq<char>, b: Seq<char>)
    requires
        str_lt(a, b),
    ensures
        !str_lt(b, a),
    decreases a.len(),
{
    if a.len() > 0 && b.len() > 0 && a[0] == b[0] {
        lemma_str_lt_asymmetric(a.drop_first(), b.drop_first());
    }
}

/// Whether `a` sorts before `b`.
pub fn str_less(a: &str, b: &str) -> (r: bool)
    ensures
        r == str_lt(a@, b@),
{
    let x = chars_of(a);
    let y = chars_of(b);
    let mut i: usize = 0;
    assert(a@.skip(0) =~= a@);
    assert(b@.skip(0) =~= b@);
    while i < x.len() && i < y.len()
        invariant
            i <= x@.len(),
            i <= y@.len(),
            x@ == a@,
            y@ == b@,
            x@.take(i as int) == y@.take(i as int),
            str_lt(a@, b@) == str_lt(a@.skip(i as int), b@.skip(i as int)),
        decreases x@.len() - i,
    {
        if x[i] != y[i] {
            assert(a@.skip(i as int)[0] == x[i as int]);
            assert(b@.skip(i as int)[0] == y[i as int]);
            return x[i] < y[i];
        }
        proof {
            assert(a@.skip(i as int).drop_first() =~= a@.skip(i + 1));
            assert(b@.skip(i as int).drop_first() =~= b@.skip(i + 1));
            assert(x@.take(i + 1) =~= x@.take(i as int).push(x@[i as int]));
            assert(y@.take(i + 1) =~= y@.take(i as int).push(y@[i as int]));
        }
        i = i + 1;
    }
    i < y.len()
}

} // verus!
