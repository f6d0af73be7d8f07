//! Shared ground types: source locations, runtime errors, and path handling
//! for resolving relative `src` references against a document uri.

use vstd::prelude::*;

verus! {

/// A half-open character range into the source text of a document.
#[derive(Clone, Copy, PartialEq, Eq, Structural, Debug)]
pub struct Location {
    pub start: usize,
    pub end: usize,
}

/// The kind of a runtime failure, as the error taxonomy defines it.
/// `Io` and `Parse` are reserved for embedders that read and parse files;
/// evaluation itself only produces `Resolution` and `Semantic` errors.
#[derive(Clone, Copy, PartialEq, Eq, Structural, Debug)]
pub enum ErrorKind {
    Io,
    Parse,
    Resolution,
    Semantic,
}

/// An error raised while evaluating a document: the uri being evaluated,
/// a message, and the source location when one is available.
#[derive(Debug)]
pub struct RuntimeError {
    pub kind: ErrorKind,
    pub uri: String,
    pub message: String,
    pub location: Option<Location>,
}

/// Mathematical image of a `RuntimeError`.
pub struct ErrV {
    pub kind: ErrorKind,
    pub uri: Seq<char>,
    pub message: Seq<char>,
    pub location: Option<Location>,
}

impl View for RuntimeError {
    type V = ErrV;

    open spec fn view(&self) -> ErrV {
        ErrV {
            kind: self.kind,
            uri: self.uri@,
            message: self.message@,
            location: self.location,
        }
    }
}

pub open spec fn err_v(
    kind: ErrorKind,
    uri: Seq<char>,
    message: Seq<char>,
    location: Option<Location>,
) -> ErrV {
    ErrV { kind, uri, message, location }
}

impl RuntimeError {
    /// Build an error from parts already owned by the caller.
    pub fn new(kind: ErrorKind, uri: String, message: String, location: Option<Location>) -> (r:
        RuntimeError)
        ensures
            r@ == err_v(kind, uri@, message@, location),
    {
        RuntimeError { kind, uri, message, location }
    }
}

/// A path is relative when it neither starts with `/` nor carries a scheme
/// (any `:` is read as the end of a scheme, as in `file://...`).
pub open spec fn is_relative_path_spec(path: Seq<char>) -> bool {
    &&& !(path.len() > 0 && path[0] == '/')
    &&& !(exists|i: int| 0 <= i < path.len() && path[i] == ':')
}

pub fn is_relative_path(path: &String) -> (r: bool)
    ensures
        r == is_relative_path_spec(path@),
{
    let s = path.as_str();
    assert(s@ == path@);
    let len = s.unicode_len();
    if len > 0 && s.get_char(0) == '/' {
        return false;
    }
    let mut i: usize = 0;
    while i < len
        invariant
            s@ == path@,
            len == s@.len(),
            0 <= i <= len,
            forall|j: int| 0 <= j < i ==> s@[j] != ':',
        decreases len - i,
    {
        if s.get_char(i) == ':' {
            assert(exists|j: int| 0 <= j < path@.len() && path@[j] == ':') by {
                assert(path@[i as int] == ':');
            }
            return false;
        }
        i += 1;
    }
    true
}

/// The length of the directory prefix of `s`: everything up to and including
/// the last `/`, or nothing when `s` holds no `/`.
pub open spec fn dir_len(s: Seq<char>) -> int
    decreases s.len(),
{
    if s.len() == 0 {
        0
    } else if s[s.len() - 1] == '/' {
        s.len() as int
    } else {
        dir_len(s.drop_last())
    }
}

/// Strip one leading `./` from a relative reference.
pub open spec fn strip_dot_slash(s: Seq<char>) -> Seq<char> {
    if s.len() >= 2 && s[0] == '.' && s[1] == '/' {
        s.subrange(2, s.len() as int)
    } else {
        s
    }
}

/// Where a resolved reference points: an absolute reference is kept as it
/// is; a relative one is joined onto the directory of `base`. Deeper
/// normalisation (`..` segments) is left to the virtual file system that
/// hands uris to this library.
pub open spec fn resolve_spec(base: Seq<char>, rel: Seq<char>) -> Seq<char> {
    if !is_relative_path_spec(rel) {
        rel
    } else {
        base.subrange(0, dir_len(base)) + strip_dot_slash(rel)
    }
}

pub fn resolve(base: &String, rel: &String) -> (r: String)
    ensures
        r@ == resolve_spec(base@, rel@),
{
    if !is_relative_path(rel) {
        return rel.clone();
    }
    let bs = base.as_str();
    let blen = bs.unicode_len();
    proof {
        assert(bs@.subrange(0, blen as int) =~= bs@);
    }
    // scan backwards for the last '/' of the base uri
    let mut d: usize = blen;
    loop
        invariant
            blen == bs@.len(),
            0 <= d <= blen,
            dir_len(bs@) == dir_len(bs@.subrange(0, d as int)),
        ensures
            dir_len(bs@) == d,
        decreases d,
    {
        if d == 0 {
            proof {
                assert(bs@.subrange(0, 0).len() == 0);
            }
            break;
        }
        if bs.get_char(d - 1) == '/' {
            proof {
                let t = bs@.subrange(0, d as int);
                assert(t.len() == d && t[d - 1] == bs@[d - 1]);
                assert(dir_len(t) == d);
            }
            break;
        }
        proof {
            assert(bs@.subrange(0, d as int).drop_last() =~= bs@.subrange(0, d - 1));
        }
        d -= 1;
    }
    let mut out: String = bs.substring_char(0, d).to_owned();
    let rs = rel.as_str();
    let rlen = rs.unicode_len();
    if rlen >= 2 && rs.get_char(0) == '.' && rs.get_char(1) == '/' {
        let tail = rs.substring_char(2, rlen);
        out.append(tail);
    } else {
        proof {
            assert(strip_dot_slash(rs@) == rs@);
        }
        out.append(rs);
    }
    out
}

} // verus!
