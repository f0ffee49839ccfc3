//! URL-path resolution and the containment guard of the static-file stage.
//!
//! The resolver turns a raw request target into a filesystem-shaped path;
//! the guard then checks that the path falls under the configured URL root
//! and joins what remains onto the filesystem root, refusing — closed, with
//! no distinguishable error — anything that could name a file outside it.

use vstd::prelude::*;
use vstd::string::*;

verus! {

/// The path component that WHATWG URL parsing gives to a request target:
/// `parsed_url_path(s)` names the path of `http://dummy.com` followed by
/// `s`, after parsing; `None` where that text does not parse as a URL.
pub uninterp spec fn parsed_url_path(request_target: Seq<char>) -> Option<Seq<char>>;

/// Relies on `url::Url::parse` and `url::Url::path`: parsing is a function
/// of the input text alone, and for an `http` URL, `path()` returns the
/// percent-encoded path component — query and fragment excluded, `.` and
/// `..` segments (plain or percent-encoded) already removed — which always
/// starts with `/`.
#[verifier::external_body]
fn parse_request_path(request_target: &str) -> (r: Option<String>)
    ensures
        match r {
            Some(p) => parsed_url_path(request_target@) == Some(p@),
            None => parsed_url_path(request_target@) is None,
        },
{
    match url::Url::parse(&format!("http://dummy.com{}", request_target)) {
        Ok(u) => Some(u.path().to_string()),
        Err(_) => None,
    }
}

/// The trailing-separator rule: a path that names a directory is rewritten,
/// textually and unconditionally, to that directory's index file.
pub open spec fn with_index(p: Seq<char>) -> Seq<char> {
    if p.len() > 0 && p[p.len() - 1] == '/' {
        p + "index.html"@
    } else {
        p
    }
}

/// Path Resolver: parse the request target's path component and apply the
/// trailing-separator rule. `None` only where the target does not parse.
pub fn url_to_file_path(url_path: &String) -> (r: Option<String>)
    ensures
        match r {
            Some(f) => (parsed_url_path(url_path@) matches Some(p) && f@ == with_index(p)),
            None => parsed_url_path(url_path@) is None,
        },
{
    match parse_request_path(url_path.as_str()) {
        Some(p) => {
            let n = p.as_str().unicode_len();
            if n > 0 && p.as_str().get_char(n - 1) == '/' {
                Some(p.concat("index.html"))
            } else {
                Some(p)
            }
        },
        None => None,
    }
}

/// A `.` or `..` segment begins at position `j`: the dot or dots run to the
/// next separator or to the end. (A name that merely starts with dots, such
/// as `..data`, is no such segment.)
pub open spec fn dot_segment_at(rem: Seq<char>, j: int) -> bool {
    ||| (0 <= j < rem.len() && rem[j] == '.' && (j + 1 == rem.len() || rem[j + 1] == '/'))
    ||| (0 <= j && j + 1 < rem.len() && rem[j] == '.' && rem[j + 1] == '.' && (j + 2 == rem.len()
        || rem[j + 2] == '/'))
}

/// What may stand after the URL root for the joined path to stay inside the
/// filesystem root: a separator, then a chain of segments, each nonempty —
/// so the remainder names a file, not the root itself — none `.` and none
/// `..`, so no step of the chain can climb out of the subtree.
pub open spec fn safe_remainder(rem: Seq<char>) -> bool {
    &&& rem.len() >= 2
    &&& rem[0] == '/'
    &&& rem[rem.len() - 1] != '/'
    &&& forall|i: int|
        #![trigger rem[i]]
        0 <= i < rem.len() && rem[i] == '/' ==> i + 1 < rem.len() && rem[i + 1] != '/'
            && !dot_segment_at(rem, i + 1)
}

/// Containment Guard, as a function of the texts alone: the resolved path
/// must carry the URL root as a literal prefix and continue with a safe
/// remainder; the remainder is then joined onto the filesystem root. Any
/// other shape is refused.
pub open spec fn contain_spec(resolved: Seq<char>, url_root: Seq<char>, fs_root: Seq<char>) -> Option<
    Seq<char>,
> {
    if resolved.len() >= url_root.len() && resolved.take(url_root.len() as int) == url_root
        && safe_remainder(resolved.skip(url_root.len() as int)) {
        Some(fs_root + resolved.skip(url_root.len() as int))
    } else {
        None
    }
}

/// A path lies within a root when the root is a literal prefix followed by
/// a safe remainder: plain nonempty segments only, so the path can name
/// nothing outside the root directory's subtree.
pub open spec fn contained_in(path: Seq<char>, fs_root: Seq<char>) -> bool {
    &&& path.len() >= fs_root.len()
    &&& path.take(fs_root.len() as int) == fs_root
    &&& safe_remainder(path.skip(fs_root.len() as int))
}

/// Containment Guard: `Some` exactly where `contain_spec` says so, `None`
/// for everything else — a non-match and a traversal attempt look the same
/// from outside.
pub fn contain(resolved: &String, url_root: &String, fs_root: &String) -> (r: Option<String>)
    ensures
        match r {
            Some(f) => contain_spec(resolved@, url_root@, fs_root@) == Some(f@),
            None => contain_spec(resolved@, url_root@, fs_root@) is None,
        },
{
    let rl = resolved.as_str().unicode_len();
    let ul = url_root.as_str().unicode_len();
    if rl < ul {
        return None;
    }
    let mut i: usize = 0;
    #[verifier::loop_isolation(false)]
    while i < ul
        invariant
            i <= ul,
            forall|j: int| 0 <= j < i ==> resolved@[j] == url_root@[j],
        decreases ul - i,
    {
        if resolved.as_str().get_char(i) != url_root.as_str().get_char(i) {
            proof {
                assert(resolved@.take(ul as int)[i as int] != url_root@[i as int]);
            }
            return None;
        }
        i += 1;
    }
    proof {
        assert(resolved@.take(ul as int) =~= url_root@);
    }
    let ghost rem = resolved@.skip(ul as int);
    let rem_len = rl - ul;
    if rem_len < 2 {
        return None;
    }
    if resolved.as_str().get_char(ul) != '/' {
        proof {
            assert(rem[0] != '/');
        }
        return None;
    }
    if resolved.as_str().get_char(rl - 1) == '/' {
        proof {
            assert(rem[rem.len() - 1] == '/');
        }
        return None;
    }
    let mut i: usize = 0;
    #[verifier::loop_isolation(false)]
    while i < rem_len
        invariant
            i <= rem_len,
            forall|j: int|
                #![trigger rem[j]]
                0 <= j < i && rem[j] == '/' ==> j + 1 < rem.len() && rem[j + 1] != '/'
                    && !dot_segment_at(rem, j + 1),
        decreases rem_len - i,
    {
        if resolved.as_str().get_char(ul + i) == '/' {
            let c1 = resolved.as_str().get_char(ul + i + 1);
            if c1 == '/' {
                proof {
                    assert(rem[i as int] == '/' && rem[i as int + 1] == '/');
                }
                return None;
            }
            if c1 == '.' {
                if i + 2 == rem_len {
                    proof {
                        assert(rem[i as int] == '/' && dot_segment_at(rem, i as int + 1));
                    }
                    return None;
                }
                let c2 = resolved.as_str().get_char(ul + i + 2);
                if c2 == '/' {
                    proof {
                        assert(rem[i as int] == '/' && dot_segment_at(rem, i as int + 1));
                    }
                    return None;
                }
                if c2 == '.' {
                    if i + 3 == rem_len {
                        proof {
                            assert(rem[i as int] == '/' && dot_segment_at(rem, i as int + 1));
                        }
                        return None;
                    }
                    let c3 = resolved.as_str().get_char(ul + i + 3);
                    if c3 == '/' {
                        proof {
                            assert(rem[i as int] == '/' && dot_segment_at(rem, i as int + 1));
                        }
                        return None;
                    }
                }
            }
        }
        i += 1;
    }
    proof {
        assert(safe_remainder(rem));
    }
    let remainder = resolved.as_str().substring_char(ul, rl);
    proof {
        assert(remainder@ =~= rem);
    }
    let joined = fs_root.clone().concat(remainder);
    proof {
        assert(joined@ =~= fs_root@ + rem);
    }
    Some(joined)
}

/// Containment law: whatever the guard accepts lies within the filesystem
/// root — for every input, including ones with `..` segments, encoded
/// traversal that parsing left in place, or an absolute-looking prefix.
pub proof fn lemma_containment(
    resolved: Seq<char>,
    url_root: Seq<char>,
    fs_root: Seq<char>,
    f: Seq<char>,
)
    requires
        contain_spec(resolved, url_root, fs_root) == Some(f),
    ensures
        contained_in(f, fs_root),
{
    let rem = resolved.skip(url_root.len() as int);
    assert(f == fs_root + rem);
    assert(f.take(fs_root.len() as int) =~= fs_root);
    assert(f.skip(fs_root.len() as int) =~= rem);
}

/// The same law over the whole chain of resolver and guard: whichever path
/// the resolver produced for a request target, the guard only ever accepts
/// a filesystem path within the root.
pub proof fn lemma_resolve_contain(
    request_target: Seq<char>,
    p: Seq<char>,
    url_root: Seq<char>,
    fs_root: Seq<char>,
    f: Seq<char>,
)
    requires
        parsed_url_path(request_target) == Some(p),
        contain_spec(with_index(p), url_root, fs_root) == Some(f),
    ensures
        contained_in(f, fs_root),
{
    lemma_containment(with_index(p), url_root, fs_root, f);
}

} // verus!
