//! Command lines of the git and GitHub tools, the shell-style splitter
//! they use, URL encoding of search queries, and how a finished command
//! becomes a tool outcome.
use vstd::prelude::*;
use vstd::string::StringSliceAdditionalSpecFns;
use crate::tui::ascii_lower;
use crate::text::{
    chars_of, dec, dec_int, i64_to_string, owned, push_all, push_char, str_eq, string_of,
    u64_to_string, views,
};

verus! {

// ── shell-style splitting ────────────────────────────────────────────

/// State of the splitter after reading some characters.
pub struct SplitState {
    pub args: Seq<Seq<char>>,
    pub current: Seq<char>,
    pub in_single: bool,
    pub in_double: bool,
    pub escaped: bool,
}

/// The splitter before reading anything.
pub open spec fn split_start() -> SplitState {
    SplitState { args: seq![], current: seq![], in_single: false, in_double: false, escaped: false }
}

/// One step of the splitter: single quotes and double quotes group,
/// a backslash escapes the next character outside single quotes, and
/// spaces or tabs outside quotes end an argument.
pub open spec fn split_step(st: SplitState, ch: char) -> SplitState {
    if st.escaped {
        SplitState { current: st.current.push(ch), escaped: false, ..st }
    } else if ch == '\\' && (st.in_double || !st.in_single) {
        SplitState { escaped: true, ..st }
    } else if ch == '\'' && !st.in_double {
        SplitState { in_single: !st.in_single, ..st }
    } else if ch == '"' && !st.in_single {
        SplitState { in_double: !st.in_double, ..st }
    } else if (ch == ' ' || ch == '\t') && !st.in_single && !st.in_double {
        if st.current.len() > 0 {
            SplitState { args: st.args.push(st.current), current: seq![], ..st }
        } else {
            st
        }
    } else {
        SplitState { current: st.current.push(ch), ..st }
    }
}

/// The splitter after reading all of `s`.
pub open spec fn split_run(s: Seq<char>) -> SplitState
    decreases s.len(),
{
    if s.len() == 0 {
        split_start()
    } else {
        split_step(split_run(s.drop_last()), s.last())
    }
}

/// The arguments that splitting `s` gives: the runs between spaces and
/// tabs that no quote or backslash protects, with the quoting characters
/// taken out and empty runs dropped. The laws below state the three
/// rules on their own: plain text splits at blanks, single quotes keep
/// their text, a backslash escapes the next character.
pub open spec fn shlex(s: Seq<char>) -> Seq<Seq<char>> {
    let st = split_run(s);
    if st.current.len() > 0 {
        st.args.push(st.current)
    } else {
        st.args
    }
}

/// The splitter started in state `st` after reading `s` from the front.
pub open spec fn split_from(st: SplitState, s: Seq<char>) -> SplitState
    decreases s.len(),
{
    if s.len() == 0 {
        st
    } else {
        split_from(split_step(st, s[0]), s.drop_first())
    }
}

/// The arguments held by a splitter that has read everything.
pub open spec fn finish(st: SplitState) -> Seq<Seq<char>> {
    if st.current.len() > 0 {
        st.args.push(st.current)
    } else {
        st.args
    }
}

/// Whether `c` separates arguments outside quotes.
pub open spec fn is_blank(c: char) -> bool {
    c == ' ' || c == '\t'
}

/// Whether `c` quotes or escapes.
pub open spec fn is_quoting(c: char) -> bool {
    c == '\'' || c == '"' || c == '\\'
}

/// Length of the run of non-blank characters that starts `s`.
pub open spec fn field_len(s: Seq<char>) -> nat
    decreases s.len(),
{
    if s.len() > 0 && !is_blank(s[0]) {
        1 + field_len(s.drop_first())
    } else {
        0
    }
}

pub proof fn lemma_field_len(s: Seq<char>)
    ensures
        field_len(s) <= s.len(),
        s.len() > 0 && !is_blank(s[0]) ==> field_len(s) >= 1,
    decreases s.len(),
{
    if s.len() > 0 && !is_blank(s[0]) {
        lemma_field_len(s.drop_first());
    }
}

/// `field_len(s)` is the length of a non-blank run that is followed by a
/// blank or the end.
pub proof fn lemma_field_len_is(s: Seq<char>, n: int)
    requires
        0 <= n <= s.len(),
        forall|k: int| 0 <= k < n ==> !is_blank(#[trigger] s[k]),
        n < s.len() ==> is_blank(s[n]),
    ensures
        field_len(s) == n,
    decreases s.len(),
{
    if n > 0 {
        let t = s.drop_first();
        assert forall|k: int| 0 <= k < n - 1 implies !is_blank(#[trigger] t[k]) by {
            assert(t[k] == s[k + 1]);
        }
        if n - 1 < t.len() {
            assert(t[n - 1] == s[n]);
        }
        lemma_field_len_is(t, n - 1);
    }
}

/// The non-empty runs of `s` between spaces and tabs, in order.
pub open spec fn blank_fields(s: Seq<char>) -> Seq<Seq<char>>
    decreases s.len(),
{
    if s.len() == 0 {
        seq![]
    } else if is_blank(s[0]) {
        blank_fields(s.drop_first())
    } else {
        proof {
            lemma_field_len(s);
        }
        seq![s.take(field_len(s) as int)] + blank_fields(s.skip(field_len(s) as int))
    }
}

proof fn lemma_split_from_push(st: SplitState, s: Seq<char>, c: char)
    ensures
        split_from(st, s.push(c)) == split_step(split_from(st, s), c),
    decreases s.len(),
{
    let sc = s.push(c);
    if s.len() > 0 {
        assert(sc.drop_first() =~= s.drop_first().push(c));
        assert(sc[0] == s[0]);
        lemma_split_from_push(split_step(st, s[0]), s.drop_first(), c);
        assert(split_from(st, sc) == split_from(split_step(st, s[0]), sc.drop_first()));
        assert(split_from(st, s) == split_from(split_step(st, s[0]), s.drop_first()));
    } else {
        assert(sc.drop_first() =~= Seq::<char>::empty());
        assert(sc[0] == c);
        assert(split_from(st, sc) == split_from(split_step(st, c), sc.drop_first()));
    }
}

/// Reading from the back and from the front give the same splitter.
proof fn lemma_run_from(s: Seq<char>)
    ensures
        split_run(s) == split_from(split_start(), s),
    decreases s.len(),
{
    if s.len() > 0 {
        lemma_run_from(s.drop_last());
        lemma_split_from_push(split_start(), s.drop_last(), s.last());
        assert(s.drop_last().push(s.last()) =~= s);
    }
}

/// A splitter outside quotes that reads text without quoting characters
/// ends with its arguments followed by the blank-separated fields of what
/// it held and what it read.
proof fn lemma_plain_from(st: SplitState, s: Seq<char>)
    requires
        !st.in_single,
        !st.in_double,
        !st.escaped,
        forall|k: int| 0 <= k < st.current.len() ==> !is_blank(#[trigger] st.current[k]),
        forall|k: int| 0 <= k < s.len() ==> !is_quoting(#[trigger] s[k]),
    ensures
        finish(split_from(st, s)) == st.args + blank_fields(st.current + s),
    decreases s.len(),
{
    let w = st.current;
    if s.len() == 0 {
        assert(w + s =~= w);
        if w.len() > 0 {
            lemma_field_len_is(w, w.len() as int);
            assert(!is_blank(w[0]));
            assert(w.skip(w.len() as int) =~= Seq::<char>::empty());
            assert(w.take(w.len() as int) =~= w);
            assert(blank_fields(Seq::<char>::empty()) =~= Seq::<Seq<char>>::empty());
            assert(blank_fields(w) =~= seq![w]);
        }
    } else {
        let c = s[0];
        let t = s.drop_first();
        let next = split_step(st, c);
        assert forall|k: int| 0 <= k < t.len() implies !is_quoting(#[trigger] t[k]) by {
            assert(t[k] == s[k + 1]);
        }
        if is_blank(c) {
            if w.len() > 0 {
                let x = w + s;
                assert forall|k: int| 0 <= k < w.len() implies !is_blank(#[trigger] x[k]) by {
                    assert(x[k] == w[k]);
                }
                assert(x[w.len() as int] == c);
                lemma_field_len_is(x, w.len() as int);
                assert(x.take(w.len() as int) =~= w);
                assert(x.skip(w.len() as int) =~= s);
                assert(x[0] == w[0]);
                assert(!is_blank(w[0]));
                assert(blank_fields(x) == seq![w] + blank_fields(s));
                assert(blank_fields(s) == blank_fields(t));
                lemma_plain_from(next, t);
                assert(next.current + t =~= t);
                assert(st.args + blank_fields(x) =~= st.args.push(w) + blank_fields(t));
            } else {
                assert(w + s =~= s);
                lemma_plain_from(next, t);
                assert(next.current + t =~= t);
            }
        } else {
            assert(next.current == w.push(c));
            assert forall|k: int| 0 <= k < next.current.len() implies !is_blank(
                #[trigger] next.current[k],
            ) by {
                if k < w.len() {
                    assert(next.current[k] == w[k]);
                }
            }
            lemma_plain_from(next, t);
            assert(next.current + t =~= w + s);
        }
    }
}

/// Text without quotes or backslashes splits at its spaces and tabs: the
/// arguments are the non-empty runs between them.
pub proof fn law_plain_text_splits_at_blanks(s: Seq<char>)
    requires
        forall|k: int| 0 <= k < s.len() ==> !is_quoting(#[trigger] s[k]),
    ensures
        shlex(s) == blank_fields(s),
{
    lemma_run_from(s);
    lemma_plain_from(split_start(), s);
    assert(split_start().current + s =~= s);
    assert(split_start().args + blank_fields(s) =~= blank_fields(s));
}

/// A splitter inside single quotes keeps every character that is not a
/// single quote.
proof fn lemma_single_from(st: SplitState, s: Seq<char>)
    requires
        st.in_single,
        !st.in_double,
        !st.escaped,
        !s.contains('\''),
    ensures
        split_from(st, s) == (SplitState { current: st.current + s, ..st }),
    decreases s.len(),
{
    if s.len() == 0 {
        assert(st.current + s =~= st.current);
    } else {
        let t = s.drop_first();
        assert(s[0] != '\'');
        if t.contains('\'') {
            let k = choose|k: int| 0 <= k < t.len() && t[k] == '\'';
            assert(s[k + 1] == t[k]);
        }
        lemma_single_from(split_step(st, s[0]), t);
        assert(st.current.push(s[0]) + t =~= st.current + s);
    }
}

/// Single quotes make one argument of the text between them, spaces,
/// double quotes and backslashes included.
pub proof fn law_single_quotes_keep_text(x: Seq<char>)
    requires
        x.len() > 0,
        !x.contains('\''),
    ensures
        shlex(seq!['\''] + x + seq!['\'']) == seq![x],
{
    let s = seq!['\''] + x + seq!['\''];
    lemma_run_from(s);
    let st1 = split_step(split_start(), '\'');
    assert(s[0] == '\'');
    assert(s.drop_first() =~= x.push('\''));
    lemma_split_from_push(st1, x, '\'');
    lemma_single_from(st1, x);
    assert(Seq::<char>::empty() + x =~= x);
}

/// A backslash outside quotes makes the next character part of an
/// argument, a space or a quote as well.
pub proof fn law_backslash_escapes(c: char)
    ensures
        shlex(seq!['\\', c]) == seq![seq![c]],
{
    let s = seq!['\\', c];
    let b = seq!['\\'];
    assert(s.drop_last() =~= b);
    assert(s.last() == c);
    assert(b.drop_last() =~= Seq::<char>::empty());
    assert(b.last() == '\\');
    assert(split_run(b.drop_last()) == split_start());
    assert(split_run(b) == split_step(split_start(), '\\'));
    assert(split_run(s) == split_step(split_run(b), c));
    assert(Seq::<char>::empty().push(c) =~= seq![c]);
}

/// Splits a command string into arguments, respecting single and double
/// quotes and backslash escapes.
pub fn shlex_split(input: &str) -> (r: Vec<String>)
    ensures
        views(r@) == shlex(input@),
{
    let cs = chars_of(input);
    let mut args: Vec<String> = Vec::new();
    let mut current: Vec<char> = Vec::new();
    let mut in_single = false;
    let mut in_double = false;
    let mut escaped = false;
    let mut i: usize = 0;
    assert(cs@.take(0) =~= Seq::<char>::empty());
    assert(views(args@) =~= Seq::<Seq<char>>::empty());
    assert(current@ =~= Seq::<char>::empty());
    while i < cs.len()
        invariant
            i <= cs.len(),
            cs@ == input@,
            split_run(cs@.take(i as int)) == (SplitState {
                args: views(args@),
                current: current@,
                in_single,
                in_double,
                escaped,
            }),
        decreases cs.len() - i,
    {
        let ch = cs[i];
        assert(cs@.take(i + 1).drop_last() =~= cs@.take(i as int));
        assert(cs@.take(i + 1).last() == ch);
        if escaped {
            current.push(ch);
            escaped = false;
        } else if ch == '\\' && (in_double || !in_single) {
            escaped = true;
        } else if ch == '\'' && !in_double {
            in_single = !in_single;
        } else if ch == '"' && !in_single {
            in_double = !in_double;
        } else if (ch == ' ' || ch == '\t') && !in_single && !in_double {
            if current.len() > 0 {
                let ghost before = views(args@);
                args.push(string_of(current.as_slice()));
                assert(views(args@) =~= before.push(current@));
                current = Vec::new();
            }
        } else {
            current.push(ch);
        }
        i = i + 1;
        assert(current@ =~= split_run(cs@.take(i as int)).current);
    }
    assert(cs@.take(i as int) =~= cs@);
    if current.len() > 0 {
        let ghost before = views(args@);
        args.push(string_of(current.as_slice()));
        assert(views(args@) =~= before.push(current@));
    }
    args
}

/// The arguments the git tool passes to `git` for a command string:
/// `-c color.ui=false` followed by the split command.
pub open spec fn git_args(command: Seq<char>) -> Seq<Seq<char>> {
    seq!["-c"@, "color.ui=false"@] + shlex(command)
}

// ── GitHub CLI ───────────────────────────────────────────────────────

/// `gh issue create` arguments.
pub open spec fn issue_create_args(
    repo: Seq<char>,
    title: Seq<char>,
    body: Option<Seq<char>>,
    labels: Option<Seq<char>>,
) -> Seq<Seq<char>> {
    let base = seq!["issue"@, "create"@, "-R"@, repo, "--title"@, title];
    let with_body = match body {
        Some(b) => base + seq!["--body"@, b],
        None => base,
    };
    match labels {
        Some(l) => with_body + seq!["--label"@, l],
        None => with_body,
    }
}

/// The view of an optional `&str`.
pub open spec fn opt_str(o: Option<&str>) -> Option<Seq<char>> {
    match o {
        Some(s) => Some(s@),
        None => None,
    }
}

fn push_owned(v: &mut Vec<String>, s: &str)
    ensures
        views(final(v)@) == views(old(v)@).push(s@),
{
    let ghost before = views(v@);
    v.push(owned(s));
    assert(views(v@) =~= before.push(s@));
}

/// Builds the `gh issue create` arguments.
pub fn build_issue_create_args(
    repo: &str,
    title: &str,
    body: Option<&str>,
    labels: Option<&str>,
) -> (r: Vec<String>)
    ensures
        views(r@) == issue_create_args(repo@, title@, opt_str(body), opt_str(labels)),
{
    let mut args: Vec<String> = Vec::new();
    push_owned(&mut args, "issue");
    push_owned(&mut args, "create");
    push_owned(&mut args, "-R");
    push_owned(&mut args, repo);
    push_owned(&mut args, "--title");
    push_owned(&mut args, title);
    if let Some(b) = body {
        push_owned(&mut args, "--body");
        push_owned(&mut args, b);
    }
    if let Some(l) = labels {
        push_owned(&mut args, "--label");
        push_owned(&mut args, l);
    }
    assert(views(args@) =~= issue_create_args(repo@, title@, opt_str(body), opt_str(labels)));
    args
}

/// Lowercase form of a string as `str::to_lowercase` computes it.
pub uninterp spec fn lowercase(s: Seq<char>) -> Seq<char>;

/// `str::to_lowercase`. The contract claims that the result is a function
/// of the text and, for text of ASCII characters only, that capitals A-Z
/// become a-z and every other character is kept; Unicode case mapping
/// beyond ASCII is not restated.
#[verifier::external_body]
fn to_lowercase(s: &str) -> (r: String)
    ensures
        r@ == lowercase(s@),
        (forall|i: int| 0 <= i < s@.len() ==> (s@[i] as u32) < 128) ==> r@ == ascii_lower(s@),
{
    s.to_lowercase()
}

/// The issue state that the search passes on: `closed` when the requested
/// state lowercases to `closed`, `open` otherwise.
pub open spec fn normalized_state(s: Seq<char>) -> Seq<char> {
    if lowercase(s) == "closed"@ {
        "closed"@
    } else {
        "open"@
    }
}

/// `gh issue list` arguments.
pub open spec fn issue_search_args(
    repo: Seq<char>,
    query: Option<Seq<char>>,
    state: Option<Seq<char>>,
    limit: nat,
) -> Seq<Seq<char>> {
    let base = seq!["issue"@, "list"@, "-R"@, repo, "-L"@, dec(limit)];
    let with_query = match query {
        Some(q) => base + seq!["--search"@, q],
        None => base,
    };
    match state {
        Some(s) => with_query + seq!["-s"@, normalized_state(s)],
        None => with_query,
    }
}

/// Builds the `gh issue list` arguments.
pub fn build_issue_search_args(
    repo: &str,
    query: Option<&str>,
    state: Option<&str>,
    limit: u32,
) -> (r: Vec<String>)
    ensures
        views(r@) == issue_search_args(repo@, opt_str(query), opt_str(state), limit as nat),
{
    let mut args: Vec<String> = Vec::new();
    push_owned(&mut args, "issue");
    push_owned(&mut args, "list");
    push_owned(&mut args, "-R");
    push_owned(&mut args, repo);
    push_owned(&mut args, "-L");
    let n = u64_to_string(limit as u64);
    push_owned(&mut args, n.as_str());
    if let Some(q) = query {
        push_owned(&mut args, "--search");
        push_owned(&mut args, q);
    }
    if let Some(s) = state {
        let lower = to_lowercase(s);
        push_owned(&mut args, "-s");
        if str_eq(lower.as_str(), "closed") {
            push_owned(&mut args, "closed");
        } else {
            push_owned(&mut args, "open");
        }
    }
    assert(views(args@) =~= issue_search_args(repo@, opt_str(query), opt_str(state), limit as nat));
    args
}

/// `gh pr create` arguments.
pub open spec fn pr_create_args(
    repo: Seq<char>,
    title: Seq<char>,
    body: Option<Seq<char>>,
    base: Seq<char>,
    head: Seq<char>,
) -> Seq<Seq<char>> {
    let args = seq!["pr"@, "create"@, "-R"@, repo, "--title"@, title, "-B"@, base, "-H"@, head];
    match body {
        Some(b) => args + seq!["--body"@, b],
        None => args,
    }
}

/// Builds the `gh pr create` arguments.
pub fn build_pr_create_args(
    repo: &str,
    title: &str,
    body: Option<&str>,
    base: &str,
    head: &str,
) -> (r: Vec<String>)
    ensures
        views(r@) == pr_create_args(repo@, title@, opt_str(body), base@, head@),
{
    let mut args: Vec<String> = Vec::new();
    push_owned(&mut args, "pr");
    push_owned(&mut args, "create");
    push_owned(&mut args, "-R");
    push_owned(&mut args, repo);
    push_owned(&mut args, "--title");
    push_owned(&mut args, title);
    push_owned(&mut args, "-B");
    push_owned(&mut args, base);
    push_owned(&mut args, "-H");
    push_owned(&mut args, head);
    if let Some(b) = body {
        push_owned(&mut args, "--body");
        push_owned(&mut args, b);
    }
    assert(views(args@) =~= pr_create_args(repo@, title@, opt_str(body), base@, head@));
    args
}

/// `gh pr view` (with a number) or `gh pr list` (without) arguments.
pub open spec fn pr_status_args(repo: Seq<char>, pr_number: Option<u32>) -> Seq<Seq<char>> {
    match pr_number {
        Some(n) => seq![
            "pr"@,
            "view"@,
            dec(n as nat),
            "-R"@,
            repo,
            "--json"@,
            "title,state,url,headRefName,baseRefName,author"@,
        ],
        None => seq!["pr"@, "list"@, "-R"@, repo, "-L"@, "10"@],
    }
}

/// Builds the `gh pr view` / `gh pr list` arguments.
pub fn build_pr_status_args(repo: &str, pr_number: Option<u32>) -> (r: Vec<String>)
    ensures
        views(r@) == pr_status_args(repo@, pr_number),
{
    let mut args: Vec<String> = Vec::new();
    match pr_number {
        Some(num) => {
            push_owned(&mut args, "pr");
            push_owned(&mut args, "view");
            let n = u64_to_string(num as u64);
            push_owned(&mut args, n.as_str());
            push_owned(&mut args, "-R");
            push_owned(&mut args, repo);
            push_owned(&mut args, "--json");
            push_owned(&mut args, "title,state,url,headRefName,baseRefName,author");
        },
        None => {
            push_owned(&mut args, "pr");
            push_owned(&mut args, "list");
            push_owned(&mut args, "-R");
            push_owned(&mut args, repo);
            push_owned(&mut args, "-L");
            push_owned(&mut args, "10");
        },
    }
    assert(views(args@) =~= pr_status_args(repo@, pr_number));
    args
}

/// `gh run list` arguments.
pub open spec fn actions_status_args(repo: Seq<char>, workflow: Option<Seq<char>>) -> Seq<
    Seq<char>,
> {
    let base = seq!["run"@, "list"@, "-R"@, repo, "-L"@, "5"@];
    match workflow {
        Some(w) => base + seq!["--workflow"@, w],
        None => base,
    }
}

/// Builds the `gh run list` arguments.
pub fn build_actions_status_args(repo: &str, workflow: Option<&str>) -> (r: Vec<String>)
    ensures
        views(r@) == actions_status_args(repo@, opt_str(workflow)),
{
    let mut args: Vec<String> = Vec::new();
    push_owned(&mut args, "run");
    push_owned(&mut args, "list");
    push_owned(&mut args, "-R");
    push_owned(&mut args, repo);
    push_owned(&mut args, "-L");
    push_owned(&mut args, "5");
    if let Some(w) = workflow {
        push_owned(&mut args, "--workflow");
        push_owned(&mut args, w);
    }
    assert(views(args@) =~= actions_status_args(repo@, opt_str(workflow)));
    args
}

// ── URL encoding ─────────────────────────────────────────────────────

/// Upper-case hexadecimal digit.
pub open spec fn hex_digit(d: int) -> char {
    if d < 10 {
        (('0' as int) + d) as char
    } else {
        (('A' as int) + d - 10) as char
    }
}

/// Bytes that pass through URL encoding unchanged.
pub open spec fn unreserved(b: u8) -> bool {
    ||| (65u8 <= b && b <= 90u8)
    ||| (97u8 <= b && b <= 122u8)
    ||| (48u8 <= b && b <= 57u8)
    ||| b == 45u8
    ||| b == 95u8
    ||| b == 46u8
    ||| b == 126u8
}

/// Encoding of one byte.
pub open spec fn encode_byte(b: u8) -> Seq<char> {
    if unreserved(b) {
        seq![b as char]
    } else if b == 32u8 {
        "%20"@
    } else {
        seq!['%', hex_digit((b / 16) as int), hex_digit((b % 16) as int)]
    }
}

/// Encoding of a byte string.
pub open spec fn url_encode(bytes: Seq<u8>) -> Seq<char>
    decreases bytes.len(),
{
    if bytes.len() == 0 {
        seq![]
    } else {
        url_encode(bytes.drop_last()) + encode_byte(bytes.last())
    }
}

fn hex(d: u8) -> (c: char)
    requires
        d < 16,
    ensures
        c == hex_digit(d as int),
{
    if d < 10 {
        ((48 + d) as u8) as char
    } else {
        ((55 + d) as u8) as char
    }
}

/// Percent-encodes the UTF-8 bytes of `input`, keeping ASCII letters,
/// digits and `-_.~`, and writing a space as `%20`.
pub fn urlencoding(input: &str) -> (r: String)
    ensures
        r@ == url_encode(input.spec_bytes()),
{
    proof {
        reveal_strlit("%20");
    }
    let bytes = input.as_bytes();
    let mut result = String::new();
    let mut i: usize = 0;
    while i < bytes.len()
        invariant
            i <= bytes.len(),
            bytes@ == input.spec_bytes(),
            result@ == url_encode(bytes@.take(i as int)),
        decreases bytes.len() - i,
    {
        let b = bytes[i];
        assert(bytes@.take(i + 1).drop_last() =~= bytes@.take(i as int));
        assert(bytes@.take(i + 1).last() == b);
        let ghost before = result@;
        if (65u8 <= b && b <= 90u8) || (97u8 <= b && b <= 122u8) || (48u8 <= b && b <= 57u8) || b
            == 45u8 || b == 95u8 || b == 46u8 || b == 126u8 {
            push_char(&mut result, b as char);
            assert(result@ =~= before + seq![b as char]);
        } else if b == 32u8 {
            proof {
                reveal_strlit("%20");
            }
            push_char(&mut result, '%');
            push_char(&mut result, '2');
            push_char(&mut result, '0');
            assert(result@ =~= before + "%20"@);
        } else {
            push_char(&mut result, '%');
            push_char(&mut result, hex(b / 16));
            push_char(&mut result, hex(b % 16));
            assert(result@ =~= before + seq!['%', hex_digit((b / 16) as int), hex_digit(
                (b % 16) as int,
            )]);
        }
        i = i + 1;
    }
    assert(bytes@.take(i as int) =~= bytes@);
    result
}

// ── command results ──────────────────────────────────────────────────

/// What a tool reports after a command finished.
#[derive(Debug, Clone)]
pub struct CommandOutcome {
    pub success: bool,
    pub output: String,
    pub error: Option<String>,
}

/// The combined output of a command: stdout, then `STDERR:` and stderr
/// when stderr is not empty (separated by a newline from stdout).
pub open spec fn combined_output(stdout: Seq<char>, stderr: Seq<char>) -> Seq<char> {
    if stderr.len() > 0 {
        let head = if stdout.len() > 0 { stdout + "\n"@ } else { stdout };
        head + "STDERR:\n"@ + stderr
    } else {
        stdout
    }
}

/// Joins a command's stdout and stderr into one text.
pub fn combine_output(stdout: &str, stderr: &str) -> (r: String)
    ensures
        r@ == combined_output(stdout@, stderr@),
{
    proof {
        reveal_strlit("\n");
    }
    let mut out = owned(stdout);
    if !stderr.is_empty() {
        if !stdout.is_empty() {
            push_char(&mut out, '\n');
            assert(out@ =~= stdout@ + "\n"@);
        }
        push_all(&mut out, "STDERR:\n");
        push_all(&mut out, stderr);
    }
    out
}

/// The kinds of command-line tools whose results are reported alike.
#[derive(Debug, Clone, Copy, PartialEq, Eq)]
pub enum CommandKind {
    Shell,
    Git,
    Github,
}

/// The error text for a failed command. A git failure names the first
/// argument handed to `git`, and that argument is always `-c` (the
/// `color.ui=false` setting that [`crate::tools::Git::build_args`] puts
/// first), so the text reads `Git -c failed` whatever the subcommand.
pub open spec fn failure_msg(kind: CommandKind, exit_code: int, stderr: Seq<char>) -> Seq<char> {
    match kind {
        CommandKind::Shell => "Exit code: "@ + dec_int(exit_code),
        CommandKind::Git => "Git -c failed (exit "@ + dec_int(exit_code) + "): "@ + stderr,
        CommandKind::Github => "gh command failed (exit "@ + dec_int(exit_code) + "): "@ + stderr,
    }
}

/// Turns a finished command into the tool's outcome. `exit_code` is the
/// process's code, absent when a signal ended it (reported as -1).
pub fn command_outcome(
    kind: CommandKind,
    success: bool,
    exit_code: Option<i32>,
    stdout: &str,
    stderr: &str,
) -> (r: CommandOutcome)
    ensures
        r.success == success,
        r.output@ == combined_output(stdout@, stderr@),
        match r.error {
            None => success,
            Some(e) => !success && e@ == failure_msg(
                kind,
                match exit_code {
                    Some(c) => c as int,
                    None => -1,
                },
                stderr@,
            ),
        },
{
    let output = combine_output(stdout, stderr);
    if success {
        return CommandOutcome { success, output, error: None };
    }
    let code: i64 = match exit_code {
        Some(c) => c as i64,
        None => -1,
    };
    let code_text = i64_to_string(code);
    let msg = match kind {
        CommandKind::Shell => {
            let mut m = owned("Exit code: ");
            push_all(&mut m, code_text.as_str());
            m
        },
        CommandKind::Git => {
            let mut m = owned("Git -c failed (exit ");
            push_all(&mut m, code_text.as_str());
            push_all(&mut m, "): ");
            push_all(&mut m, stderr);
            m
        },
        CommandKind::Github => {
            let mut m = owned("gh command failed (exit ");
            push_all(&mut m, code_text.as_str());
            push_all(&mut m, "): ");
            push_all(&mut m, stderr);
            m
        },
    };
    CommandOutcome { success, output, error: Some(msg) }
}

} // verus!
