//! Dot-path extraction from JSON values (`users.0.name`).
//!
//! A JSON document is held as a [`JsonValue`]; parsing the input text and
//! printing the result belong to the caller.
use vstd::prelude::*;
use crate::text::{
    chars_of, dec, owned, parse_u64, parse_u64_spec, push_all, split_chars, split_on, str_eq, string_of, u64_to_string,
    views,
};

verus! {

/// A JSON value. Numbers keep their literal text; an object's members keep
/// their order, each key once.
#[derive(Debug)]
pub enum JsonValue {
    Null,
    Bool(bool),
    Number(String),
    Str(String),
    Array(Vec<JsonValue>),
    Object(Vec<(String, JsonValue)>),
}

/// What `str::parse::<usize>` gives for a path segment.
pub open spec fn index_of_segment(part: Seq<char>) -> Option<usize> {
    match parse_u64_spec(part) {
        Some(v) => if v <= usize::MAX {
            Some(v as usize)
        } else {
            None
        },
        None => None,
    }
}

/// The position of the first member named `key`.
pub open spec fn member_index(members: Seq<(String, JsonValue)>, key: Seq<char>) -> Option<int> {
    if exists|k: int| 0 <= k < members.len() && members[k].0@ == key {
        Some(
            choose|k: int|
                0 <= k < members.len() && members[k].0@ == key && forall|j: int|
                    0 <= j < k ==> members[j].0@ != key,
        )
    } else {
        None
    }
}

/// Error text: index past the end of an array.
pub open spec fn out_of_bounds_msg(idx: nat, len: nat, seg: nat) -> Seq<char> {
    "Array index "@ + dec(idx) + " out of bounds (length "@ + dec(len) + ") at path segment "@ + dec(seg)
}

/// Error text: an index into something that is not an array.
pub open spec fn not_array_msg(part: Seq<char>, seg: nat) -> Seq<char> {
    "Cannot index into non-array value with '"@ + part + "' at path segment "@ + dec(seg)
}

/// Error text: a key an object does not have.
pub open spec fn missing_key_msg(part: Seq<char>, seg: nat) -> Seq<char> {
    "Key '"@ + part + "' not found at path segment "@ + dec(seg)
}

/// Error text: a key on something that is not an object.
pub open spec fn not_object_msg(part: Seq<char>, seg: nat) -> Seq<char> {
    "Cannot access key '"@ + part + "' on non-object value at path segment "@ + dec(seg)
}

/// Follows `parts[i..]` from `v`: a segment that reads as an index selects
/// an array element, any other segment an object member.
pub open spec fn resolve(v: JsonValue, parts: Seq<Seq<char>>, i: nat) -> Result<JsonValue, Seq<char>>
    decreases parts.len() - i,
{
    if i >= parts.len() {
        Ok(v)
    } else {
        let part = parts[i as int];
        match index_of_segment(part) {
            Some(idx) => match v {
                JsonValue::Array(items) => if idx < items@.len() {
                    resolve(items@[idx as int], parts, i + 1)
                } else {
                    Err(out_of_bounds_msg(idx as nat, items@.len(), i))
                },
                _ => Err(not_array_msg(part, i)),
            },
            None => match v {
                JsonValue::Object(members) => match member_index(members@, part) {
                    Some(k) => resolve(members@[k].1, parts, i + 1),
                    None => Err(missing_key_msg(part, i)),
                },
                _ => Err(not_object_msg(part, i)),
            },
        }
    }
}


/// Following a longer path passes through the value that its prefix
/// reaches: once `p` leads from `v` to a value, `p` followed by `q` gives
/// what `q` gives from that value (segments still counted from the start).
pub proof fn law_path_prefix(v: JsonValue, p: Seq<Seq<char>>, q: Seq<Seq<char>>)
    requires
        resolve(v, p, 0) is Ok,
    ensures
        resolve(v, p + q, 0) == resolve(resolve(v, p, 0)->Ok_0, p + q, p.len()),
{
    lemma_resolve_prefix(v, p, q, 0);
}

proof fn lemma_resolve_prefix(v: JsonValue, p: Seq<Seq<char>>, q: Seq<Seq<char>>, i: nat)
    requires
        i <= p.len(),
        resolve(v, p, i) is Ok,
    ensures
        resolve(v, p + q, i) == resolve(resolve(v, p, i)->Ok_0, p + q, p.len()),
    decreases p.len() - i,
{
    if i < p.len() {
        assert((p + q)[i as int] == p[i as int]);
        let part = p[i as int];
        match index_of_segment(part) {
            Some(idx) => match v {
                JsonValue::Array(items) => {
                    if idx < items@.len() {
                        lemma_resolve_prefix(items@[idx as int], p, q, i + 1);
                    }
                },
                _ => {},
            },
            None => match v {
                JsonValue::Object(members) => match member_index(members@, part) {
                    Some(k) => {
                        lemma_resolve_prefix(members@[k].1, p, q, i + 1);
                    },
                    None => {},
                },
                _ => {},
            },
        }
    }
}

/// The first member of `members` named `key`.
pub(crate) fn find_member(members: &Vec<(String, JsonValue)>, key: &str) -> (r: Option<usize>)
    ensures
        match r {
            Some(k) => member_index(members@, key@) == Some(k as int) && k < members@.len(),
            None => member_index(members@, key@) is None,
        },
{
    let mut k: usize = 0;
    while k < members.len()
        invariant
            k <= members@.len(),
            forall|j: int| 0 <= j < k ==> members@[j].0@ != key@,
        decreases members@.len() - k,
    {
        if str_eq(members[k].0.as_str(), key) {
            proof {
                let c = choose|c: int|
                    0 <= c < members@.len() && members@[c].0@ == key@ && forall|j: int|
                        0 <= j < c ==> members@[j].0@ != key@;
                assert(0 <= k < members@.len() && members@[k as int].0@ == key@ && forall|j: int|
                    0 <= j < k ==> members@[j].0@ != key@);
                if c < k {
                } else if c > k {
                    assert(members@[k as int].0@ != key@);
                }
            }
            return Some(k);
        }
        k = k + 1;
    }
    None
}

/// `str::parse::<usize>` on a path segment.
fn segment_index(part: &str) -> (r: Option<usize>)
    ensures
        r == index_of_segment(part@),
{
    match parse_u64(part) {
        Some(v) => if v <= usize::MAX as u64 {
            Some(v as usize)
        } else {
            None
        },
        None => None,
    }
}

/// Follows the path `parts` from `value`.
pub fn resolve_path<'a>(value: &'a JsonValue, parts: &[String]) -> (r: Result<&'a JsonValue, String>)
    ensures
        match r {
            Ok(v) => resolve(*value, views(parts@), 0) == Ok::<JsonValue, Seq<char>>(*v),
            Err(e) => resolve(*value, views(parts@), 0) == Err::<JsonValue, Seq<char>>(e@),
        },
{
    let ghost ps = views(parts@);
    let mut cur: &JsonValue = value;
    let mut i: usize = 0;
    while i < parts.len()
        invariant
            i <= parts@.len(),
            ps == views(parts@),
            resolve(*value, ps, 0) == resolve(*cur, ps, i as nat),
        decreases parts@.len() - i,
    {
        let part = parts[i].as_str();
        assert(ps[i as int] == part@);
        match segment_index(part) {
            Some(idx) => match cur {
                JsonValue::Array(items) => {
                    if idx < items.len() {
                        cur = &items[idx];
                    } else {
                        let mut m = owned("Array index ");
                        push_all(&mut m, u64_to_string(idx as u64).as_str());
                        push_all(&mut m, " out of bounds (length ");
                        push_all(&mut m, u64_to_string(items.len() as u64).as_str());
                        push_all(&mut m, ") at path segment ");
                        push_all(&mut m, u64_to_string(i as u64).as_str());
                        assert(m@ =~= out_of_bounds_msg(idx as nat, items@.len(), i as nat));
                        return Err(m);
                    }
                },
                _ => {
                    let mut m = owned("Cannot index into non-array value with '");
                    push_all(&mut m, part);
                    push_all(&mut m, "' at path segment ");
                    push_all(&mut m, u64_to_string(i as u64).as_str());
                    assert(m@ =~= not_array_msg(part@, i as nat));
                    return Err(m);
                },
            },
            None => match cur {
                JsonValue::Object(members) => {
                    match find_member(members, part) {
                        Some(k) => {
                            cur = &members[k].1;
                        },
                        None => {
                            let mut m = owned("Key '");
                            push_all(&mut m, part);
                            push_all(&mut m, "' not found at path segment ");
                            push_all(&mut m, u64_to_string(i as u64).as_str());
                            assert(m@ =~= missing_key_msg(part@, i as nat));
                            return Err(m);
                        },
                    }
                },
                _ => {
                    let mut m = owned("Cannot access key '");
                    push_all(&mut m, part);
                    push_all(&mut m, "' on non-object value at path segment ");
                    push_all(&mut m, u64_to_string(i as u64).as_str());
                    assert(m@ =~= not_object_msg(part@, i as nat));
                    return Err(m);
                },
            },
        }
        i = i + 1;
    }
    Ok(cur)
}

/// The segments of a dot-path query (`str::split('.')`).
pub fn query_parts(query: &str) -> (r: Vec<String>)
    ensures
        views(r@) == split_on(query@, '.'),
{
    let cs = chars_of(query);
    let pieces = split_chars(cs.as_slice(), '.');
    let ghost want = pieces@.map_values(|p: Vec<char>| p@);
    let mut out: Vec<String> = Vec::new();
    let mut i: usize = 0;
    while i < pieces.len()
        invariant
            i <= pieces@.len(),
            want == pieces@.map_values(|p: Vec<char>| p@),
            want == split_on(query@, '.'),
            out@.len() == i,
            forall|k: int| 0 <= k < i ==> (#[trigger] out@[k])@ == want[k],
        decreases pieces@.len() - i,
    {
        let s = string_of(pieces[i].as_slice());
        out.push(s);
        i = i + 1;
    }
    assert(views(out@) =~= want);
    out
}

/// Extracts the value at the dot-path `query` from `value`.
pub fn json_extract<'a>(value: &'a JsonValue, query: &str) -> (r: Result<&'a JsonValue, String>)
    ensures
        match r {
            Ok(v) => resolve(*value, split_on(query@, '.'), 0) == Ok::<JsonValue, Seq<char>>(*v),
            Err(e) => resolve(*value, split_on(query@, '.'), 0) == Err::<JsonValue, Seq<char>>(e@),
        },
{
    let parts = query_parts(query);
    resolve_path(value, parts.as_slice())
}

} // verus!
