//! Five-field cron expressions: parsing and matching.
//!
//! Fields: minute (0-59), hour (0-23), day of month (1-31), month (1-12),
//! day of week (0-6, 0 = Sunday). Each field is `*`, a value, a list
//! `1,3,5`, a range `1-5`, or a step `*/5`, `1-10/2`.
use chrono::{Datelike, Timelike};
use vstd::prelude::*;
use crate::text::{
    chars_of, dec, dec_int, split_words, words, u64_to_string, find_char, i64_to_string, idx_of, lemma_idx_of, owned, parse_i32_chars,
    parse_i32_spec, push_all, slice_of, split_chars, split_on, string_of, trim, trim_chars,
    is_digit, is_ws, lemma_lead_ws_is, lemma_trail_ws_is, signed_literal, all_digits,
};

verus! {

/// A parsed cron field.
#[derive(Debug, Clone)]
pub enum CronField {
    /// Matches any value (`*`).
    Wildcard,
    /// Matches one value.
    Value(i32),
    /// Matches any of the listed values (`1,3,5`).
    List(Vec<i32>),
    /// Matches a closed range (`1-5`).
    Range(i32, i32),
    /// Matches `start`, `start + step`, ... (`*/5`, `7/3`).
    Step(i32, i32),
    /// Matches `start`, `start + step`, ... up to `end` (`1-10/2`).
    StepRange(i32, i32, i32),
}

/// Mathematical model of a [`CronField`].
pub enum FieldModel {
    Wildcard,
    Value(i32),
    List(Seq<i32>),
    Range(i32, i32),
    Step(i32, i32),
    StepRange(i32, i32, i32),
}

impl View for CronField {
    type V = FieldModel;

    open spec fn view(&self) -> FieldModel {
        match self {
            CronField::Wildcard => FieldModel::Wildcard,
            CronField::Value(v) => FieldModel::Value(*v),
            CronField::List(vs) => FieldModel::List(vs@),
            CronField::Range(a, b) => FieldModel::Range(*a, *b),
            CronField::Step(a, s) => FieldModel::Step(*a, *s),
            CronField::StepRange(a, b, s) => FieldModel::StepRange(*a, *b, *s),
        }
    }
}

/// Whether a field model admits `v`.
pub open spec fn field_matches(f: FieldModel, v: int) -> bool {
    match f {
        FieldModel::Wildcard => true,
        FieldModel::Value(x) => x == v,
        FieldModel::List(xs) => xs.contains(v as i32) && i32::MIN <= v <= i32::MAX,
        FieldModel::Range(a, b) => a <= v <= b,
        FieldModel::Step(a, s) => v >= a && (v - a) % (s as int) == 0,
        FieldModel::StepRange(a, b, s) => a <= v <= b && (v - a) % (s as int) == 0,
    }
}

/// A field can be evaluated without dividing by zero.
pub open spec fn field_ok(f: FieldModel) -> bool {
    match f {
        FieldModel::Step(_, s) => s != 0,
        FieldModel::StepRange(_, _, s) => s != 0,
        _ => true,
    }
}

/// Error text for a value outside `[min, max]`.
pub open spec fn out_of_range_msg(v: int, min: int, max: int, input: Seq<char>) -> Seq<char> {
    "Value "@ + dec_int(v) + " out of range ["@ + dec_int(min) + ", "@ + dec_int(max)
        + "] in field '"@ + input + "'"@
}

/// Error text naming a bad piece of a field.
pub open spec fn piece_msg(what: Seq<char>, piece: Seq<char>, input: Seq<char>) -> Seq<char> {
    what + piece + "' in field '"@ + input + "'"@
}

/// Parses every piece of a list (trimmed), failing if any piece fails.
pub open spec fn parse_list(pieces: Seq<Seq<char>>) -> Option<Seq<i32>>
    decreases pieces.len(),
{
    if pieces.len() == 0 {
        Some(seq![])
    } else {
        match parse_i32_spec(trim(pieces[0])) {
            None => None,
            Some(v) => match parse_list(pieces.drop_first()) {
                None => None,
                Some(rest) => Some(seq![v] + rest),
            },
        }
    }
}

/// The first value of `vs` outside `[min, max]`, if any.
pub open spec fn first_out_of_range(vs: Seq<i32>, min: int, max: int) -> Option<i32>
    decreases vs.len(),
{
    if vs.len() == 0 {
        None
    } else if vs[0] < min || vs[0] > max {
        Some(vs[0])
    } else {
        first_out_of_range(vs.drop_first(), min, max)
    }
}

/// Range part `a-b` of a field: the start value, or the error text.
pub open spec fn range_result(base: Seq<char>, input: Seq<char>) -> Result<(i32, i32), Seq<char>> {
    let j = idx_of(base, '-');
    let st = base.take(j);
    let en = base.skip(j + 1);
    match parse_i32_spec(st) {
        None => Err(piece_msg("Invalid range start '"@, st, input)),
        Some(a) => match parse_i32_spec(en) {
            None => Err(piece_msg("Invalid range end '"@, en, input)),
            Some(b) => Ok((a, b)),
        },
    }
}

/// The first end of a range `a-b` outside `[min, max]`, if any.
pub open spec fn range_out_of_bounds(a: i32, b: i32, min: i32, max: i32) -> Option<i32> {
    if a < min || a > max {
        Some(a)
    } else if b < min || b > max {
        Some(b)
    } else {
        None
    }
}

/// What parsing the field text `raw` with bounds `[min, max]` yields. Every
/// number of a value, list or range must lie within the bounds, as must the
/// start of a step; a stepped range keeps its end.
pub open spec fn field_result(raw: Seq<char>, min: i32, max: i32) -> Result<FieldModel, Seq<char>> {
    let input = trim(raw);
    if input == "*"@ {
        Ok(FieldModel::Wildcard)
    } else if input.contains('/') {
        let k = idx_of(input, '/');
        let base = input.take(k);
        let step = input.skip(k + 1);
        match parse_i32_spec(step) {
            None => Err(piece_msg("Invalid step value '"@, step, input)),
            Some(sv) => if sv <= 0 {
                Err("Step must be positive in field '"@ + input + "'"@)
            } else if base == "*"@ {
                Ok(FieldModel::Step(min, sv))
            } else if base.contains('-') {
                match range_result(base, input) {
                    Err(m) => Err(m),
                    Ok((a, b)) => match range_out_of_bounds(a, b, min, max) {
                        Some(v) => Err(out_of_range_msg(v as int, min as int, max as int, input)),
                        None => Ok(FieldModel::StepRange(a, b, sv)),
                    },
                }
            } else {
                match parse_i32_spec(base) {
                    None => Err(piece_msg("Invalid value '"@, base, input)),
                    Some(v) => if v < min || v > max {
                        Err(out_of_range_msg(v as int, min as int, max as int, input))
                    } else {
                        Ok(FieldModel::Step(v, sv))
                    },
                }
            },
        }
    } else if input.contains(',') {
        match parse_list(split_on(input, ',')) {
            None => Err("Invalid list value in field '"@ + input + "'"@),
            Some(vs) => match first_out_of_range(vs, min as int, max as int) {
                Some(v) => Err(out_of_range_msg(v as int, min as int, max as int, input)),
                None => Ok(FieldModel::List(vs)),
            },
        }
    } else if input.contains('-') {
        match range_result(input, input) {
            Err(m) => Err(m),
            Ok((a, b)) => match range_out_of_bounds(a, b, min, max) {
                Some(v) => Err(out_of_range_msg(v as int, min as int, max as int, input)),
                None => Ok(FieldModel::Range(a, b)),
            },
        }
    } else {
        match parse_i32_spec(input) {
            None => Err(piece_msg("Invalid value '"@, input, input)),
            Some(v) => if v < min || v > max {
                Err(out_of_range_msg(v as int, min as int, max as int, input))
            } else {
                Ok(FieldModel::Value(v))
            },
        }
    }
}

/// The view of a parse result.
pub open spec fn field_result_view(r: Result<CronField, String>) -> Result<FieldModel, Seq<char>> {
    match r {
        Ok(f) => Ok(f@),
        Err(e) => Err(e@),
    }
}

/// `a + x + b` as a `String`.
fn frame(a: &str, x: &[char], b: &str) -> (s: String)
    ensures
        s@ == a@ + x@ + b@,
{
    let mut s = owned(a);
    let xs = string_of(x);
    push_all(&mut s, xs.as_str());
    push_all(&mut s, b);
    s
}

fn piece_error(what: &str, piece: &[char], input: &[char]) -> (s: String)
    ensures
        s@ == piece_msg(what@, piece@, input@),
{
    let mut s = frame(what, piece, "' in field '");
    let i = string_of(input);
    push_all(&mut s, i.as_str());
    push_all(&mut s, "'");
    s
}

fn out_of_range_error(v: i32, min: i32, max: i32, input: &[char]) -> (s: String)
    ensures
        s@ == out_of_range_msg(v as int, min as int, max as int, input@),
{
    let mut s = owned("Value ");
    push_all(&mut s, i64_to_string(v as i64).as_str());
    push_all(&mut s, " out of range [");
    push_all(&mut s, i64_to_string(min as i64).as_str());
    push_all(&mut s, ", ");
    push_all(&mut s, i64_to_string(max as i64).as_str());
    push_all(&mut s, "] in field '");
    push_all(&mut s, string_of(input).as_str());
    push_all(&mut s, "'");
    s
}

fn is_star(cs: &[char]) -> (r: bool)
    ensures
        r == (cs@ == "*"@),
{
    proof {
        reveal_strlit("*");
    }
    let r = cs.len() == 1 && cs[0] == '*';
    proof {
        if cs@ == "*"@ {
            assert(cs@[0] == '*');
        }
        if r {
            assert(cs@ =~= "*"@);
        }
    }
    r
}

fn range_parts(base: &[char], input: &[char]) -> (r: Result<(i32, i32), String>)
    requires
        base@.contains('-'),
    ensures
        match r {
            Ok(p) => range_result(base@, input@) == Ok::<(i32, i32), Seq<char>>(p),
            Err(e) => range_result(base@, input@) == Err::<(i32, i32), Seq<char>>(e@),
        },
{
    let j = find_char(base, '-');
    proof {
        lemma_idx_of(base@, '-');
    }
    let st = slice_of(base, 0, j);
    assert(st@ =~= base@.take(j as int));
    let en = slice_of(base, j + 1, base.len());
    assert(en@ =~= base@.skip(j + 1));
    match parse_i32_chars(st.as_slice()) {
        None => Err(piece_error("Invalid range start '", st.as_slice(), input)),
        Some(a) => match parse_i32_chars(en.as_slice()) {
            None => Err(piece_error("Invalid range end '", en.as_slice(), input)),
            Some(b) => Ok((a, b)),
        },
    }
}

/// The error for a range with an end outside `[min, max]`, if any.
fn range_bound_error(a: i32, b: i32, min: i32, max: i32, input: &[char]) -> (r: Option<String>)
    ensures
        match range_out_of_bounds(a, b, min, max) {
            Some(v) => r matches Some(e) && e@ == out_of_range_msg(v as int, min as int, max as int, input@),
            None => r is None,
        },
{
    if a < min || a > max {
        Some(out_of_range_error(a, min, max, input))
    } else if b < min || b > max {
        Some(out_of_range_error(b, min, max, input))
    } else {
        None
    }
}

/// Parses and trims each piece of a list.
fn parse_pieces(pieces: &Vec<Vec<char>>) -> (r: Option<Vec<i32>>)
    ensures
        match r {
            Some(vs) => parse_list(pieces@.map_values(|p: Vec<char>| p@)) == Some(vs@),
            None => parse_list(pieces@.map_values(|p: Vec<char>| p@)) is None,
        },
{
    let ghost all = pieces@.map_values(|p: Vec<char>| p@);
    let mut out: Vec<i32> = Vec::new();
    let mut i: usize = 0;
    assert(all.skip(0) =~= all);
    assert(out@ + Seq::<i32>::empty() =~= out@);
    proof {
        match parse_list(all) {
            None => {},
            Some(rest) => {
                assert(out@ + rest =~= rest);
            },
        }
    }
    while i < pieces.len()
        invariant
            i <= pieces.len(),
            all == pieces@.map_values(|p: Vec<char>| p@),
            parse_list(all) == match parse_list(all.skip(i as int)) {
                None => None,
                Some(rest) => Some(out@ + rest),
            },
        decreases pieces.len() - i,
    {
        let ghost tail = all.skip(i as int);
        assert(tail[0] == pieces@[i as int]@);
        assert(tail.drop_first() =~= all.skip(i + 1));
        let t = trim_chars(pieces[i].as_slice());
        match parse_i32_chars(t.as_slice()) {
            None => {
                return None;
            },
            Some(v) => {
                proof {
                    match parse_list(all.skip(i + 1)) {
                        None => {},
                        Some(rest) => {
                            assert(out@.push(v) + rest =~= out@ + (seq![v] + rest));
                        },
                    }
                }
                out.push(v);
            },
        }
        i = i + 1;
    }
    assert(all.skip(i as int) =~= Seq::<Seq<char>>::empty());
    assert(out@ + Seq::<i32>::empty() =~= out@);
    Some(out)
}

fn first_bad(vs: &Vec<i32>, min: i32, max: i32) -> (r: Option<i32>)
    ensures
        r == first_out_of_range(vs@, min as int, max as int),
{
    let mut i: usize = 0;
    assert(vs@.skip(0) =~= vs@);
    while i < vs.len()
        invariant
            i <= vs.len(),
            first_out_of_range(vs@, min as int, max as int) == first_out_of_range(
                vs@.skip(i as int),
                min as int,
                max as int,
            ),
        decreases vs.len() - i,
    {
        assert(vs@.skip(i as int)[0] == vs@[i as int]);
        assert(vs@.skip(i as int).drop_first() =~= vs@.skip(i + 1));
        if vs[i] < min || vs[i] > max {
            return Some(vs[i]);
        }
        i = i + 1;
    }
    assert(vs@.skip(i as int) =~= Seq::<i32>::empty());
    None
}

impl CronField {
    /// Parses one field of a cron expression with bounds `[min, max]`.
    pub fn parse(input: &str, min: i32, max: i32) -> (r: Result<CronField, String>)
        ensures
            field_result_view(r) == field_result(input@, min, max),
    {
        let raw = chars_of(input);
        Self::parse_chars(raw.as_slice(), min, max)
    }

    fn parse_chars(raw: &[char], min: i32, max: i32) -> (r: Result<CronField, String>)
        ensures
            field_result_view(r) == field_result(raw@, min, max),
    {
        let input = trim_chars(raw);
        let inp = input.as_slice();
        if is_star(inp) {
            return Ok(CronField::Wildcard);
        }
        let k = find_char(inp, '/');
        proof {
            lemma_idx_of(inp@, '/');
            lemma_idx_of(inp@, ',');
            lemma_idx_of(inp@, '-');
        }
        if k < inp.len() {
            let base = slice_of(inp, 0, k);
            let step = slice_of(inp, k + 1, inp.len());
            assert(base@ =~= inp@.take(k as int));
            assert(step@ =~= inp@.skip(k + 1));
            let step_val = match parse_i32_chars(step.as_slice()) {
                None => {
                    return Err(piece_error("Invalid step value '", step.as_slice(), inp));
                },
                Some(v) => v,
            };
            if step_val <= 0 {
                let s = frame("Step must be positive in field '", inp, "'");
                return Err(s);
            }
            if is_star(base.as_slice()) {
                return Ok(CronField::Step(min, step_val));
            }
            proof {
                lemma_idx_of(base@, '-');
            }
            if find_char(base.as_slice(), '-') < base.len() {
                return match range_parts(base.as_slice(), inp) {
                    Err(e) => Err(e),
                    Ok((a, b)) => match range_bound_error(a, b, min, max, inp) {
                        Some(e) => Err(e),
                        None => Ok(CronField::StepRange(a, b, step_val)),
                    },
                };
            }
            return match parse_i32_chars(base.as_slice()) {
                None => Err(piece_error("Invalid value '", base.as_slice(), inp)),
                Some(v) => if v < min || v > max {
                    Err(out_of_range_error(v, min, max, inp))
                } else {
                    Ok(CronField::Step(v, step_val))
                },
            };
        }
        if find_char(inp, ',') < inp.len() {
            let pieces = split_chars(inp, ',');
            return match parse_pieces(&pieces) {
                None => Err(frame("Invalid list value in field '", inp, "'")),
                Some(vs) => match first_bad(&vs, min, max) {
                    Some(v) => Err(out_of_range_error(v, min, max, inp)),
                    None => Ok(CronField::List(vs)),
                },
            };
        }
        if find_char(inp, '-') < inp.len() {
            return match range_parts(inp, inp) {
                Err(e) => Err(e),
                Ok((a, b)) => match range_bound_error(a, b, min, max, inp) {
                    Some(e) => Err(e),
                    None => Ok(CronField::Range(a, b)),
                },
            };
        }
        match parse_i32_chars(inp) {
            None => Err(piece_error("Invalid value '", inp, inp)),
            Some(v) => if v < min || v > max {
                Err(out_of_range_error(v, min, max, inp))
            } else {
                Ok(CronField::Value(v))
            },
        }
    }

    /// Whether `value` matches this field.
    pub fn matches(&self, value: i32) -> (r: bool)
        requires
            field_ok(self@),
        ensures
            r == field_matches(self@, value as int),
    {
        match self {
            CronField::Wildcard => true,
            CronField::Value(v) => *v == value,
            CronField::List(values) => {
                let mut i: usize = 0;
                while i < values.len()
                    invariant
                        i <= values.len(),
                        self@ == FieldModel::List(values@),
                        forall|k: int| 0 <= k < i ==> values@[k] != value,
                    decreases values.len() - i,
                {
                    if values[i] == value {
                        assert(values@[i as int] == value);
                        assert(values@.contains(value));
                        return true;
                    }
                    i = i + 1;
                }
                false
            },
            CronField::Range(start, end) => value >= *start && value <= *end,
            CronField::Step(start, step) => {
                if value >= *start {
                    let d: i64 = value as i64 - *start as i64;
                    let s: i64 = if *step < 0 {
                        -(*step as i64)
                    } else {
                        *step as i64
                    };
                    proof {
                        let m = *step as int;
                        assert((d as int % m == 0) == (d as int % (s as int) == 0)) by (nonlinear_arith)
                            requires
                                s == m || s == -m,
                                m != 0,
                                d >= 0,
                        {
                            if s == -m {
                                vstd::arithmetic::div_mod::lemma_fundamental_div_mod(d as int, m);
                                vstd::arithmetic::div_mod::lemma_fundamental_div_mod(d as int, s as int);
                            }
                        }
                    }
                    d % s == 0
                } else {
                    false
                }
            },
            CronField::StepRange(start, end, step) => {
                if value >= *start && value <= *end {
                    let d: i64 = value as i64 - *start as i64;
                    let s: i64 = if *step < 0 {
                        -(*step as i64)
                    } else {
                        *step as i64
                    };
                    proof {
                        let m = *step as int;
                        assert((d as int % m == 0) == (d as int % (s as int) == 0)) by (nonlinear_arith)
                            requires
                                s == m || s == -m,
                                m != 0,
                                d >= 0,
                        {
                            if s == -m {
                                vstd::arithmetic::div_mod::lemma_fundamental_div_mod(d as int, m);
                                vstd::arithmetic::div_mod::lemma_fundamental_div_mod(d as int, s as int);
                            }
                        }
                    }
                    d % s == 0
                } else {
                    false
                }
            },
        }
    }

    /// The value of a `Value` field.
    pub fn field_value(&self) -> (r: Option<i32>)
        ensures
            r == match self@ {
                FieldModel::Value(v) => Some(v),
                _ => None::<i32>,
            },
    {
        match self {
            CronField::Value(v) => Some(*v),
            _ => None,
        }
    }
}

/// A step over `*` counts from the field's minimum: for any positive step
/// `s` written as `st`, the field `*/st` parsed with bounds `[min, max]`
/// admits exactly the values `min`, `min + s`, `min + 2s`, ..., so it
/// admits its minimum and nothing below it.
pub proof fn law_star_step_counts_from_min(st: Seq<char>, min: i32, max: i32, s: i32)
    requires
        parse_i32_spec(st) == Some(s),
        s > 0,
    ensures
        field_result("*/"@ + st, min, max) is Ok,
        forall|v: int|
            #![trigger field_matches(field_result("*/"@ + st, min, max)->Ok_0, v)]
            field_matches(field_result("*/"@ + st, min, max)->Ok_0, v) <==> (v >= min && (v
                - min) % (s as int) == 0),
        field_matches(field_result("*/"@ + st, min, max)->Ok_0, min as int),
{
    reveal_strlit("*/");
    reveal_strlit("*");
    let input = "*/"@ + st;
    let n = input.len() as int;
    assert(signed_literal(st) is Some);
    assert(st.len() > 0);
    // every character of `st` is a sign or a digit, and the last one a digit
    assert forall|k: int| 0 <= k < st.len() implies #[trigger] st[k] != '/' && (k == st.len() - 1
        ==> is_digit(st[k])) by {
        if st[0] == '+' || st[0] == '-' {
            let rest = st.drop_first();
            assert(all_digits(rest));
            if k > 0 {
                assert(st[k] == rest[k - 1]);
                assert(is_digit(rest[k - 1]));
            }
        } else {
            assert(all_digits(st));
            assert(is_digit(st[k]));
        }
    }
    assert(input[n - 1] == st[st.len() - 1]);
    assert(is_digit(st[st.len() - 1]));
    assert(!is_ws(input[n - 1]));
    assert(input[0] == '*');
    lemma_lead_ws_is(input, 0);
    lemma_trail_ws_is(input, 0);
    assert(trim(input) =~= input);
    assert(input[1] == '/');
    assert(input.contains('/'));
    assert(input != "*"@) by {
        assert(input.len() != "*"@.len());
    }
    assert(input.drop_first()[0] == '/');
    assert(idx_of(input.drop_first(), '/') == 0);
    assert(idx_of(input, '/') == 1);
    assert(input.take(1) =~= "*"@);
    assert(input.skip(2) =~= st);
    assert(field_result(input, min, max) == Ok::<FieldModel, Seq<char>>(FieldModel::Step(min, s)));
    assert(0int % (s as int) == 0) by (nonlinear_arith)
        requires
            s > 0,
    ;
}

// ── calendar ─────────────────────────────────────────────────────────

/// Earliest Unix timestamp (seconds) that chrono's `DateTime<Utc>` holds.
pub const MIN_TIMESTAMP: i64 = -8334601315200i64;

/// Latest Unix timestamp (seconds) that chrono's `DateTime<Utc>` holds.
pub const MAX_TIMESTAMP: i64 = 8210266876799i64;

/// Seconds in the two years that a search for the next occurrence covers.
pub const SEARCH_HORIZON: i64 = 63072000i64;

/// The UTC calendar fields of a timestamp as chrono computes them:
/// (minute, hour, day of month, month, days from Sunday).
pub uninterp spec fn utc_fields(ts: int) -> (u32, u32, u32, u32, u32);

/// The day (0-based) of the UTC date of `ts` within its year counted from
/// March 1st, in the proleptic Gregorian calendar: days since the epoch
/// are shifted to start on 0000-03-01 and split into 400-year eras of
/// 146097 days.
pub open spec fn march_day_of_year(ts: int) -> int {
    let doe = (ts / 86400 + 719468) % 146097;
    let yoe = (doe - doe / 1460 + doe / 36524 - doe / 146096) / 365;
    doe - (365 * yoe + yoe / 4 - yoe / 100)
}

/// The day of the month of the UTC date of `ts`.
#[verifier::opaque]
pub open spec fn civil_day(ts: int) -> int {
    let doy = march_day_of_year(ts);
    doy - (153 * ((5 * doy + 2) / 153) + 2) / 5 + 1
}

/// The month (1 to 12) of the UTC date of `ts`.
#[verifier::opaque]
pub open spec fn civil_month(ts: int) -> int {
    let mp = (5 * march_day_of_year(ts) + 2) / 153;
    if mp < 10 {
        mp + 3
    } else {
        mp - 9
    }
}

/// Calendar fields of `ts` in UTC, computed by chrono
/// (`DateTime::from_timestamp`, then `minute`, `hour`, `day`, `month`,
/// `weekday().num_days_from_sunday()`). The contract claims that the result
/// is a function of `ts`, that each field lies in its calendar range, and
/// each field's closed form: chrono splits the timestamp into whole days
/// and seconds of the day, counts dates in the proleptic Gregorian
/// calendar, and the epoch day 1970-01-01 was a Thursday.
#[verifier::external_body]
fn calendar_fields(ts: i64) -> (r: (u32, u32, u32, u32, u32))
    requires
        MIN_TIMESTAMP <= ts <= MAX_TIMESTAMP,
    ensures
        r == utc_fields(ts as int),
        r.0 < 60,
        r.1 < 24,
        1 <= r.2 <= 31,
        1 <= r.3 <= 12,
        r.4 < 7,
        r.0 == (ts as int % 86400) % 3600 / 60,
        r.1 == (ts as int % 86400) / 3600,
        r.2 == civil_day(ts as int),
        r.3 == civil_month(ts as int),
        r.4 == (ts as int / 86400 + 4) % 7,
{
    let dt = chrono::DateTime::from_timestamp(ts, 0).unwrap();
    (dt.minute(), dt.hour(), dt.day(), dt.month(), dt.weekday().num_days_from_sunday())
}

/// A cron schedule parsed from a five-field expression.
#[derive(Debug, Clone)]
pub struct Schedule {
    /// The raw expression.
    pub expression: String,
    pub minute: CronField,
    pub hour: CronField,
    pub day_of_month: CronField,
    pub month: CronField,
    pub day_of_week: CronField,
}

/// Mathematical model of a [`Schedule`].
pub struct ScheduleModel {
    pub expression: Seq<char>,
    pub minute: FieldModel,
    pub hour: FieldModel,
    pub day_of_month: FieldModel,
    pub month: FieldModel,
    pub day_of_week: FieldModel,
}

impl View for Schedule {
    type V = ScheduleModel;

    open spec fn view(&self) -> ScheduleModel {
        ScheduleModel {
            expression: self.expression@,
            minute: self.minute@,
            hour: self.hour@,
            day_of_month: self.day_of_month@,
            month: self.month@,
            day_of_week: self.day_of_week@,
        }
    }
}

/// Every field of the schedule can be evaluated.
pub open spec fn schedule_ok(s: ScheduleModel) -> bool {
    &&& field_ok(s.minute)
    &&& field_ok(s.hour)
    &&& field_ok(s.day_of_month)
    &&& field_ok(s.month)
    &&& field_ok(s.day_of_week)
}

/// Whether the schedule admits the given calendar fields.
pub open spec fn schedule_admits(
    s: ScheduleModel,
    minute: int,
    hour: int,
    day: int,
    month: int,
    weekday: int,
) -> bool {
    &&& field_matches(s.minute, minute)
    &&& field_matches(s.hour, hour)
    &&& field_matches(s.day_of_month, day)
    &&& field_matches(s.month, month)
    &&& field_matches(s.day_of_week, weekday)
}

/// Whether the schedule fires at timestamp `ts` (UTC).
pub open spec fn fires_at(s: ScheduleModel, ts: int) -> bool {
    let f = utc_fields(ts);
    schedule_admits(s, f.0 as int, f.1 as int, f.2 as int, f.3 as int, f.4 as int)
}

/// The first whole minute after the minute of `from`.
pub open spec fn next_minute(from: int) -> int {
    from - (from % 60) + 60
}

/// Error text for an expression that does not have five fields.
pub open spec fn field_count_msg(e: Seq<char>, n: nat) -> Seq<char> {
    "Invalid cron expression '"@ + e + "': expected 5 fields, got "@ + dec(n)
}

/// `r` is the first whole minute after the minute of `from` at which `s`
/// fires, within two years of `from`; `None` when there is none.
pub open spec fn is_next_occurrence(s: ScheduleModel, from: int, r: Option<i64>) -> bool {
    match r {
        Some(t) => {
            &&& next_minute(from) <= t <= from + SEARCH_HORIZON
            &&& (t - next_minute(from)) % 60 == 0
            &&& fires_at(s, t as int)
            &&& forall|k: int|
                0 <= k && next_minute(from) + 60 * k < t ==> !fires_at(
                    s,
                    #[trigger] (next_minute(from) + 60 * k),
                )
        },
        None => forall|k: int|
            0 <= k && next_minute(from) + 60 * k <= from + SEARCH_HORIZON ==> !fires_at(
                s,
                #[trigger] (next_minute(from) + 60 * k),
            ),
    }
}

/// What parsing the expression `e` yields.
pub open spec fn schedule_result(e: Seq<char>) -> Result<ScheduleModel, Seq<char>> {
    let parts = words(e);
    if parts.len() != 5 {
        Err(field_count_msg(e, parts.len()))
    } else {
        match field_result(parts[0], 0, 59) {
            Err(m) => Err(m),
            Ok(mi) => match field_result(parts[1], 0, 23) {
                Err(m) => Err(m),
                Ok(h) => match field_result(parts[2], 1, 31) {
                    Err(m) => Err(m),
                    Ok(d) => match field_result(parts[3], 1, 12) {
                        Err(m) => Err(m),
                        Ok(mo) => match field_result(parts[4], 0, 6) {
                            Err(m) => Err(m),
                            Ok(w) => Ok(
                                ScheduleModel {
                                    expression: e,
                                    minute: mi,
                                    hour: h,
                                    day_of_month: d,
                                    month: mo,
                                    day_of_week: w,
                                },
                            ),
                        },
                    },
                },
            },
        }
    }
}

/// The view of a schedule parse result.
pub open spec fn schedule_result_view(r: Result<Schedule, String>) -> Result<ScheduleModel, Seq<char>> {
    match r {
        Ok(s) => Ok(s@),
        Err(e) => Err(e@),
    }
}

pub proof fn lemma_parsed_field_ok(raw: Seq<char>, min: i32, max: i32)
    ensures
        field_result(raw, min, max) is Ok ==> field_ok(field_result(raw, min, max)->Ok_0),
{
}

impl Schedule {
    /// Parses a five-field cron expression such as `*/5 * * * *` or
    /// `0 9 * * 1-5`.
    pub fn parse(expression: &str) -> (r: Result<Schedule, String>)
        ensures
            schedule_result_view(r) == schedule_result(expression@),
            r is Ok ==> schedule_ok(r->Ok_0@),
    {
        let cs = chars_of(expression);
        let parts = split_words(cs.as_slice());
        if parts.len() != 5 {
            let mut msg = owned("Invalid cron expression '");
            push_all(&mut msg, expression);
            push_all(&mut msg, "': expected 5 fields, got ");
            let n = u64_to_string(parts.len() as u64);
            push_all(&mut msg, n.as_str());
            return Err(msg);
        }
        assert(parts@[0]@ == words(expression@)[0]);
        assert(parts@[1]@ == words(expression@)[1]);
        assert(parts@[2]@ == words(expression@)[2]);
        assert(parts@[3]@ == words(expression@)[3]);
        assert(parts@[4]@ == words(expression@)[4]);
        proof {
            lemma_parsed_field_ok(parts@[0]@, 0, 59);
            lemma_parsed_field_ok(parts@[1]@, 0, 23);
            lemma_parsed_field_ok(parts@[2]@, 1, 31);
            lemma_parsed_field_ok(parts@[3]@, 1, 12);
            lemma_parsed_field_ok(parts@[4]@, 0, 6);
        }
        let minute = CronField::parse_chars(parts[0].as_slice(), 0, 59)?;
        let hour = CronField::parse_chars(parts[1].as_slice(), 0, 23)?;
        let day_of_month = CronField::parse_chars(parts[2].as_slice(), 1, 31)?;
        let month = CronField::parse_chars(parts[3].as_slice(), 1, 12)?;
        let day_of_week = CronField::parse_chars(parts[4].as_slice(), 0, 6)?;
        Ok(Schedule { expression: owned(expression), minute, hour, day_of_month, month, day_of_week })
    }

    /// Whether the schedule admits the given calendar fields.
    pub fn matches_fields(&self, minute: i32, hour: i32, day: i32, month: i32, weekday: i32) -> (r:
        bool)
        requires
            schedule_ok(self@),
        ensures
            r == schedule_admits(
                self@,
                minute as int,
                hour as int,
                day as int,
                month as int,
                weekday as int,
            ),
    {
        self.minute.matches(minute) && self.hour.matches(hour) && self.day_of_month.matches(day)
            && self.month.matches(month) && self.day_of_week.matches(weekday)
    }

    /// Whether the schedule fires at the minute that holds timestamp `ts`
    /// (seconds since the Unix epoch, UTC).
    pub fn matches(&self, ts: i64) -> (r: bool)
        requires
            schedule_ok(self@),
            MIN_TIMESTAMP <= ts <= MAX_TIMESTAMP,
        ensures
            r == fires_at(self@, ts as int),
    {
        let f = calendar_fields(ts);
        self.matches_fields(f.0 as i32, f.1 as i32, f.2 as i32, f.3 as i32, f.4 as i32)
    }

    /// The first whole minute after the minute of `from` at which the
    /// schedule fires, searching two years ahead.
    pub fn next_occurrence(&self, from: i64) -> (r: Option<i64>)
        requires
            schedule_ok(self@),
            MIN_TIMESTAMP <= from,
            from + SEARCH_HORIZON <= MAX_TIMESTAMP,
        ensures
            is_next_occurrence(self@, from as int, r),
    {
        let shifted: u64 = (from - MIN_TIMESTAMP) as u64;
        let sec: i64 = (shifted % 60) as i64;
        assert(sec == from as int % 60) by (nonlinear_arith)
            requires
                shifted == from - MIN_TIMESTAMP,
                sec == shifted % 60,
                MIN_TIMESTAMP == -138910021920 * 60,
        {
        }
        let start: i64 = from - sec + 60;
        let deadline: i64 = from + SEARCH_HORIZON;
        let mut candidate: i64 = start;
        let ghost mut steps: int = 0;
        while candidate <= deadline
            invariant
                schedule_ok(self@),
                start == next_minute(from as int),
                deadline == from + SEARCH_HORIZON,
                MIN_TIMESTAMP <= from,
                deadline <= MAX_TIMESTAMP,
                candidate == start + 60 * steps,
                steps >= 0,
                candidate <= deadline + 60,
                forall|k: int|
                    0 <= k < steps ==> !fires_at(self@, #[trigger] (start + 60 * k)),
            decreases deadline + 60 - candidate,
        {
            if self.matches(candidate) {
                assert forall|k: int|
                    0 <= k && start + 60 * k < candidate implies !fires_at(
                        self@,
                        #[trigger] (start + 60 * k),
                    ) by {
                    assert(k < steps);
                }
                return Some(candidate);
            }
            candidate = candidate + 60;
            proof {
                steps = steps + 1;
            }
        }
        assert forall|k: int|
            0 <= k && start + 60 * k <= deadline implies !fires_at(
                self@,
                #[trigger] (start + 60 * k),
            ) by {
            assert(k < steps);
        }
        None
    }
}

} // verus!
