//! What the web tools make of their input and of an HTTP answer: URL
//! checks, the search URL, and the result text with long bodies cut.
use vstd::prelude::*;
use vstd::string::StringSliceAdditionalSpecFns;
use crate::commands::{url_encode, urlencoding};
use crate::text::{chars_of, dec, find_seq, find_spec, is_prefix, owned, push_all, starts_with, string_of, u64_to_string};

verus! {

/// Bytes of a response body kept in a result.
pub const MAX_BODY_BYTES: usize = 100000usize;

/// Whether the URL has an HTTP scheme.
pub open spec fn http_url(url: Seq<char>) -> bool {
    is_prefix("http://"@, url) || is_prefix("https://"@, url)
}

/// The error for a URL without an HTTP scheme, or `None` when it has one.
pub fn fetch_url_error(url: &str) -> (r: Option<String>)
    ensures
        http_url(url@) ==> r is None,
        !http_url(url@) ==> (r matches Some(m) && m@ == "URL must start with http:// or https://"@),
{
    if starts_with(url, "http://") || starts_with(url, "https://") {
        None
    } else {
        Some(owned("URL must start with http:// or https://"))
    }
}

/// What a web tool reports of an HTTP answer.
#[derive(Debug, Clone, PartialEq, Eq)]
pub struct WebOutcome {
    pub success: bool,
    pub output: String,
    pub error: Option<String>,
}

/// The suffix of a fetched body cut from `n` bytes.
pub open spec fn fetch_cut_note(n: nat) -> Seq<char> {
    " (truncated from "@ + dec(n) + " bytes to 100000)"@
}

/// `out` is `body` kept whole, or its first 100000 bytes followed by `note`.
pub open spec fn kept_body(body: &str, out: Seq<char>, note: Seq<char>) -> bool {
    if body.spec_bytes().len() > MAX_BODY_BYTES {
        exists|h: &str|
            #![trigger h.spec_bytes()]
            h.spec_bytes() == body.spec_bytes().subrange(0, MAX_BODY_BYTES as int) && out == h@ + note
    } else {
        out == body@
    }
}

/// The body's length fits in memory, and a body over the limit can be cut
/// at a character boundary.
pub open spec fn cut_ok(body: &str) -> bool {
    &&& body.spec_bytes().len() <= usize::MAX
    &&& body.spec_bytes().len() > MAX_BODY_BYTES ==> vstd::utf8::is_char_boundary(
        body.spec_bytes(),
        MAX_BODY_BYTES as int,
    )
}

fn cut_body(body: &str, note: &str) -> (r: String)
    requires
        cut_ok(body),
    ensures
        kept_body(body, r@, note@),
{
    if body.len() > MAX_BODY_BYTES {
        let (head, _) = body.split_at(MAX_BODY_BYTES);
        let mut out = owned(head);
        push_all(&mut out, note);
        assert(head.spec_bytes() =~= body.spec_bytes().subrange(0, MAX_BODY_BYTES as int));
        assert(out@ == head@ + note@);
        assert(head.spec_bytes() == body.spec_bytes().subrange(0, MAX_BODY_BYTES as int) && out@ == head@ + note@);
        assert(kept_body(body, out@, note@));
        out
    } else {
        owned(body)
    }
}

/// The result of a fetch: success as the status says, the body (cut at
/// 100000 bytes, with a note of its length), and `HTTP <status>` as the
/// error of a failed status.
pub fn fetch_outcome(success: bool, status_text: &str, body: &str) -> (r: WebOutcome)
    requires
        cut_ok(body),
    ensures
        r.success == success,
        kept_body(body, r.output@, fetch_cut_note(body.spec_bytes().len())),
        success ==> r.error is None,
        !success ==> (r.error matches Some(e) && e@ == "HTTP "@ + status_text@),
{
    let mut note = owned(" (truncated from ");
    let blen = body.len();
    let n = u64_to_string(blen as u64);
    assert(n@ == dec(body.spec_bytes().len()));
    push_all(&mut note, n.as_str());
    push_all(&mut note, " bytes to 100000)");
    assert(note@ =~= fetch_cut_note(body.spec_bytes().len()));
    let output = cut_body(body, note.as_str());
    let error = if success {
        None
    } else {
        let mut e = owned("HTTP ");
        push_all(&mut e, status_text);
        Some(e)
    };
    WebOutcome { success, output, error }
}

/// The result of a search request: like a fetch, with a shorter note.
pub fn search_outcome(success: bool, status_text: &str, body: &str) -> (r: WebOutcome)
    requires
        cut_ok(body),
    ensures
        r.success == success,
        kept_body(body, r.output@, " (truncated)"@),
        success ==> r.error is None,
        !success ==> (r.error matches Some(e) && e@ == "HTTP "@ + status_text@),
{
    let output = cut_body(body, " (truncated)");
    let error = if success {
        None
    } else {
        let mut e = owned("HTTP ");
        push_all(&mut e, status_text);
        Some(e)
    };
    WebOutcome { success, output, error }
}

/// `s` with every occurrence of the non-empty `pat` replaced by `rep`,
/// scanning left to right (`str::replace`).
pub open spec fn replace_all(s: Seq<char>, pat: Seq<char>, rep: Seq<char>) -> Seq<char>
    decreases s.len(),
{
    if pat.len() == 0 {
        s
    } else {
        match find_spec(s, pat) {
            None => s,
            Some(i) => if 0 <= i && i + pat.len() <= s.len() {
                s.take(i) + rep + replace_all(s.skip(i + pat.len()), pat, rep)
            } else {
                s
            },
        }
    }
}

fn replace_chars(s: &[char], pat: &[char], rep: &str) -> (r: String)
    requires
        pat@.len() > 0,
    ensures
        r@ == replace_all(s@, pat@, rep@),
    decreases s@.len(),
{
    match find_seq(s, pat) {
        None => {
            assert(replace_all(s@, pat@, rep@) == s@);
            string_of(s)
        },
        Some(i) => {
            let n = s.len();
            let end = i + pat.len();
            let head = crate::text::slice_of(s, 0, i);
            let tail = crate::text::slice_of(s, end, n);
            let ghost sv = s@;
            let ghost pv = pat@;
            assert(head@ =~= sv.take(i as int));
            assert(tail@ =~= sv.skip(i + pv.len()));
            assert(replace_all(sv, pv, rep@) == sv.take(i as int) + rep@ + replace_all(
                sv.skip(i + pv.len()),
                pv,
                rep@,
            ));
            let rest = replace_chars(tail.as_slice(), pat, rep);
            let mut out = string_of(head.as_slice());
            push_all(&mut out, rep);
            push_all(&mut out, rest.as_str());
            out
        },
    }
}

/// The search URL: the template with each `{query}` replaced by the
/// percent-encoded query.
pub fn search_url(template: &str, query: &str) -> (r: String)
    ensures
        r@ == replace_all(template@, "{query}"@, url_encode(query.spec_bytes())),
{
    proof {
        reveal_strlit("{query}");
    }
    let encoded = urlencoding(query);
    let t = chars_of(template);
    let p = chars_of("{query}");
    replace_chars(t.as_slice(), p.as_slice(), encoded.as_str())
}

/// The answer of a search tool that has no search URL.
pub fn unconfigured_search_output(query: &str) -> (r: String)
    ensures
        r@ == "Web search is not configured with a search provider URL. To enable web search, configure a search URL template using `with_search_url()`. Query was: "@
            + query@,
{
    let mut m = owned(
        "Web search is not configured with a search provider URL. To enable web search, configure a search URL template using `with_search_url()`. Query was: ",
    );
    push_all(&mut m, query);
    m
}

} // verus!
