//! Choosing the upstream a request goes to, and the path it is sent with.
use vstd::prelude::*;
use vstd::string::StrSliceExecFns;
use vstd::string::StringExecFns;
use crate::config::{Config, opt_text};

verus! {

/// `i` is the position of the first `/` in `p`.
pub open spec fn is_first_slash(p: Seq<char>, i: int) -> bool {
    &&& 0 <= i < p.len()
    &&& p[i] == '/'
    &&& forall|j: int| 0 <= j < i ==> p[j] != '/'
}

/// Where the first segment of `p` ends: its first `/`, or its length.
pub open spec fn segment_end(p: Seq<char>) -> int {
    if exists|i: int| is_first_slash(p, i) {
        choose|i: int| is_first_slash(p, i)
    } else {
        p.len() as int
    }
}

/// The text before the first `/` (all of `p` if it has none).
pub open spec fn first_segment(p: Seq<char>) -> Seq<char> {
    p.take(segment_end(p))
}

/// The text after the first `/` (empty if `p` has none).
pub open spec fn after_first_segment(p: Seq<char>) -> Seq<char> {
    if segment_end(p) < p.len() {
        p.skip(segment_end(p) + 1)
    } else {
        Seq::empty()
    }
}

/// The upstream and forwarded path for a request path. An empty path goes to
/// the fallback upstream at `/`; a path whose first segment names an upstream
/// goes there with that segment removed; any other path goes, whole, to the
/// fallback upstream.
pub open spec fn resolution(path: Seq<char>, c: Config) -> (Option<Seq<char>>, Seq<char>) {
    if path.len() == 0 {
        (c.fallback(), seq!['/'])
    } else if c.has_upstream(first_segment(path)) {
        (Some(first_segment(path)), seq!['/'] + after_first_segment(path))
    } else {
        (c.fallback(), seq!['/'] + path)
    }
}

/// Resolves `path` (the request path without its leading `/`) to an upstream
/// name, `None` when no upstream can be chosen, and the path to forward.
pub fn resolve(path: &str, config: &Config) -> (r: (Option<String>, String))
    requires
        config.upstreams@.len() > 0,
    ensures
        (opt_text(r.0), r.1@) == resolution(path@, *config),
{
    let mut forwarded = String::from_str("/");
    proof {
        reveal_strlit("/");
    }
    let len = path.unicode_len();
    if len == 0 {
        return (fallback(config), forwarded);
    }
    let mut i: usize = 0;
    while i < len
        invariant
            len == path@.len(),
            i <= len,
            forall|j: int| 0 <= j < i ==> path@[j] != '/',
        ensures
            i <= len,
            forall|j: int| 0 <= j < i ==> path@[j] != '/',
            i < len ==> path@[i as int] == '/',
        decreases len - i,
    {
        if path.get_char(i) == '/' {
            break;
        }
        i = i + 1;
    }
    proof {
        if i < len {
            assert(is_first_slash(path@, i as int));
            let k = choose|k: int| is_first_slash(path@, k);
            assert(k == i as int) by {
                if k < i as int {
                } else if k > i as int {
                }
            }
        } else {
            assert forall|k: int| !is_first_slash(path@, k) by {
                if 0 <= k < len {
                    assert(path@[k] != '/');
                }
            }
        }
    }
    let prefix = String::from_str(path.substring_char(0, i));
    if config.contains_upstream(&prefix) {
        if i < len {
            forwarded.append(path.substring_char(i + 1, len));
        }
        assert(forwarded@ =~= seq!['/'] + after_first_segment(path@));
        (Some(prefix), forwarded)
    } else {
        forwarded.append(path);
        (fallback(config), forwarded)
    }
}

/// The only upstream, or the default one when there are several.
fn fallback(config: &Config) -> (r: Option<String>)
    requires
        config.upstreams@.len() > 0,
    ensures
        opt_text(r) == config.fallback(),
{
    if config.upstreams.len() > 1 {
        config.default_upstream.clone()
    } else {
        Some(config.upstreams[0].name.clone())
    }
}

} // verus!
