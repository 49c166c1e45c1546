//! The filesystem sandbox: whether a resolved path lies within the allowed
//! directories and outside the denied ones.
//!
//! Paths are compared as text, by prefix. Resolving a path against the
//! filesystem, and finding the working directory, is the caller's part.
use vstd::prelude::*;
use crate::text::{is_prefix, owned, push_all, push_char, starts_with};

verus! {

/// Which paths tools may read and write.
#[derive(Debug, Clone)]
pub struct PathBoundary {
    pub allowed_read: Vec<String>,
    pub allowed_write: Vec<String>,
    pub denied: Vec<String>,
}

/// Why a path was refused.
#[derive(Debug, Clone, PartialEq, Eq)]
pub enum SandboxError {
    /// Permission denied, with its explanation.
    PermissionDenied(String),
}

/// `base` joined with the relative path `rel`, as `Path::join` does.
pub open spec fn joined(base: Seq<char>, rel: Seq<char>) -> Seq<char> {
    if base.len() == 0 || base.last() == '/' {
        base + rel
    } else {
        base + seq!['/'] + rel
    }
}

/// The absolute form of an allowed entry: relative entries are taken
/// from the working directory, when it is known.
pub open spec fn allowed_full(a: Seq<char>, cwd: Option<Seq<char>>) -> Seq<char> {
    if a.len() > 0 && a[0] == '/' {
        a
    } else {
        match cwd {
            Some(c) => joined(c, a),
            None => a,
        }
    }
}

/// The first denied entry that is a prefix of `p`.
pub open spec fn denied_by(ds: Seq<Seq<char>>, p: Seq<char>) -> Option<Seq<char>>
    decreases ds.len(),
{
    if ds.len() == 0 {
        None
    } else if is_prefix(ds[0], p) {
        Some(ds[0])
    } else {
        denied_by(ds.drop_first(), p)
    }
}

/// Whether some allowed entry, made absolute, is a prefix of `p`.
pub open spec fn allowed_by(xs: Seq<Seq<char>>, p: Seq<char>, cwd: Option<Seq<char>>) -> bool {
    exists|i: int| 0 <= i < xs.len() && is_prefix(allowed_full(#[trigger] xs[i], cwd), p)
}

/// The text of a path refused by a denied entry.
pub open spec fn denied_msg(p: Seq<char>, rule: Seq<char>) -> Seq<char> {
    "Path '"@ + p + "' is denied by rule '"@ + rule + "'"@
}

/// The text of a path outside the allowed entries.
pub open spec fn outside_msg(p: Seq<char>, write: bool) -> Seq<char> {
    "Path '"@ + p + "' is not within allowed "@ + (if write {
        "write"@
    } else {
        "read"@
    }) + " boundaries"@
}

/// The characters of an optional string.
pub open spec fn opt_str(o: Option<&str>) -> Option<Seq<char>> {
    match o {
        Some(s) => Some(s@),
        None => None,
    }
}

/// The views of a list of strings.
pub open spec fn list_view(v: Seq<String>) -> Seq<Seq<char>> {
    v.map_values(|s: String| s@)
}

/// Enforces a [`PathBoundary`].
#[derive(Debug, Clone)]
pub struct Sandbox {
    boundary: PathBoundary,
}

impl Sandbox {
    /// The boundary enforced.
    pub closed spec fn boundary_spec(&self) -> PathBoundary {
        self.boundary
    }

    /// A sandbox enforcing `boundary`.
    pub fn new(boundary: PathBoundary) -> (r: Sandbox)
        ensures
            r.boundary_spec() == boundary,
    {
        Sandbox { boundary }
    }

    /// The boundary enforced.
    pub fn boundary(&self) -> (r: &PathBoundary)
        ensures
            *r == self.boundary_spec(),
    {
        &self.boundary
    }

    /// Checks a resolved path for reading (`write` false) or writing: a
    /// denied entry that is a prefix of the path refuses it; otherwise an
    /// allowed entry of that kind that is a prefix admits it; otherwise it
    /// is refused. `cwd` is the working directory, against which relative
    /// allowed entries are taken.
    pub fn check_allowed(&self, path: &str, write: bool, cwd: Option<&str>) -> (r: Result<
        String,
        SandboxError,
    >)
        ensures
            ({
                let p = path@;
                let c = opt_str(cwd);
                let list = if write {
                    self.boundary_spec().allowed_write@
                } else {
                    self.boundary_spec().allowed_read@
                };
                match denied_by(list_view(self.boundary_spec().denied@), p) {
                    Some(rule) => r matches Err(SandboxError::PermissionDenied(m)) && m@ == denied_msg(p, rule),
                    None => if allowed_by(list_view(list), p, c) {
                        r matches Ok(q) && q@ == p
                    } else {
                        r matches Err(SandboxError::PermissionDenied(m)) && m@ == outside_msg(p, write)
                    },
                }
            }),
    {
        let ghost ds = list_view(self.boundary.denied@);
        let mut i: usize = 0;
        assert(ds.skip(0) =~= ds);
        while i < self.boundary.denied.len()
            invariant
                i <= ds.len(),
                ds == list_view(self.boundary.denied@),
                denied_by(ds, path@) == denied_by(ds.skip(i as int), path@),
            decreases ds.len() - i,
        {
            let d = &self.boundary.denied[i];
            assert(ds.skip(i as int)[0] == d@);
            if starts_with(path, d.as_str()) {
                let mut m = owned("Path '");
                push_all(&mut m, path);
                push_all(&mut m, "' is denied by rule '");
                push_all(&mut m, d.as_str());
                push_all(&mut m, "'");
                return Err(SandboxError::PermissionDenied(m));
            }
            assert(ds.skip(i as int).drop_first() =~= ds.skip(i + 1));
            i = i + 1;
        }
        assert(ds.skip(i as int) =~= Seq::<Seq<char>>::empty());
        let list = if write {
            &self.boundary.allowed_write
        } else {
            &self.boundary.allowed_read
        };
        let ghost c = opt_str(cwd);
        let mut j: usize = 0;
        while j < list.len()
            invariant
                j <= list@.len(),
                denied_by(list_view(self.boundary.denied@), path@) is None,
                list@ == (if write {
                    self.boundary.allowed_write@
                } else {
                    self.boundary.allowed_read@
                }),
                c == opt_str(cwd),
                forall|k: int| 0 <= k < j ==> !is_prefix(allowed_full(#[trigger] list_view(list@)[k], c), path@),
            decreases list@.len() - j,
        {
            let full = full_allowed(list[j].as_str(), cwd);
            assert(list_view(list@)[j as int] == list@[j as int]@);
            if starts_with(path, full.as_str()) {
                return Ok(owned(path));
            }
            j = j + 1;
        }
        let mut m = owned("Path '");
        push_all(&mut m, path);
        push_all(&mut m, "' is not within allowed ");
        push_all(&mut m, if write { "write" } else { "read" });
        push_all(&mut m, " boundaries");
        Err(SandboxError::PermissionDenied(m))
    }
}

fn full_allowed(a: &str, cwd: Option<&str>) -> (r: String)
    ensures
        r@ == allowed_full(a@, opt_str(cwd)),
{
    proof {
        reveal_strlit("/");
        assert("/"@ =~= seq!['/']);
    }
    let starts = starts_with(a, "/");
    assert(starts == (a@.len() > 0 && a@[0] == '/')) by {
        reveal_strlit("/");
        assert("/"@ =~= seq!['/']);
        if a@.len() > 0 {
            assert(a@.take(1) =~= seq![a@[0]]);
            if a@[0] == '/' {
                assert(a@.take(1) =~= "/"@);
            }
            if a@.take(1) == "/"@ {
                assert(a@.take(1)[0] == '/');
            }
        }
    }
    if starts {
        return owned(a);
    }
    match cwd {
        None => {
            owned(a)
        },
        Some(base) => {
            let mut m = owned(base);
            let ends_with_slash = ends_with_char(base, '/');
            if !ends_with_slash && !base.is_empty() {
                push_char(&mut m, '/');
            }
            push_all(&mut m, a);
            m
        },
    }
}

fn ends_with_char(s: &str, c: char) -> (r: bool)
    ensures
        r == (s@.len() > 0 && s@.last() == c),
{
    let cs = crate::text::chars_of(s);
    cs.len() > 0 && cs[cs.len() - 1] == c
}

/// A denied entry refuses every path it is a prefix of, whatever the
/// allowed lists say.
pub proof fn lemma_denied_wins(ds: Seq<Seq<char>>, p: Seq<char>, k: int)
    requires
        0 <= k < ds.len(),
        is_prefix(ds[k], p),
    ensures
        denied_by(ds, p) is Some,
    decreases ds.len(),
{
    if k > 0 && !is_prefix(ds[0], p) {
        lemma_denied_wins(ds.drop_first(), p, k - 1);
    }
}

} // verus!
