//! How the dashboard's files are served: media types, caching, and which
//! paths belong to the service instead.

use vstd::prelude::*;

verus! {

/// `s` starts with `prefix`.
pub open spec fn has_prefix(s: Seq<char>, prefix: Seq<char>) -> bool {
    prefix.len() <= s.len() && s.subrange(0, prefix.len() as int) == prefix
}

/// `s` ends with `suffix`.
pub open spec fn has_suffix(s: Seq<char>, suffix: Seq<char>) -> bool {
    suffix.len() <= s.len() && s.subrange(s.len() - suffix.len(), s.len() as int) == suffix
}

/// The position of the last `.` in `s` before position `end`, or -1.
pub open spec fn last_dot_before(s: Seq<char>, end: int) -> int
    decreases end,
{
    if end <= 0 {
        -1
    } else if s[end - 1] == '.' {
        end - 1
    } else {
        last_dot_before(s, end - 1)
    }
}

/// What follows the last `.` of a path; the whole path where it has none.
pub open spec fn extension(s: Seq<char>) -> Seq<char> {
    s.subrange(last_dot_before(s, s.len() as int) + 1, s.len() as int)
}

/// The media type served for a file extension.
pub open spec fn mime_of(ext: Seq<char>) -> Seq<char> {
    if ext == "html"@ {
        "text/html; charset=utf-8"@
    } else if ext == "js"@ {
        "application/javascript"@
    } else if ext == "wasm"@ {
        "application/wasm"@
    } else if ext == "css"@ {
        "text/css; charset=utf-8"@
    } else if ext == "json"@ {
        "application/json"@
    } else if ext == "png"@ {
        "image/png"@
    } else if ext == "svg"@ {
        "image/svg+xml"@
    } else if ext == "ico"@ {
        "image/x-icon"@
    } else {
        "application/octet-stream"@
    }
}

/// The caching rule for a path: fingerprinted bundles are kept for a year,
/// anything else is revalidated.
pub open spec fn cache_of(path: Seq<char>) -> Seq<char> {
    if has_suffix(path, ".wasm"@) || has_suffix(path, ".js"@) || has_suffix(path, ".css"@) {
        "public, max-age=31536000, immutable"@
    } else {
        "no-cache"@
    }
}

/// Paths that the service answers itself rather than the dashboard.
pub open spec fn api_path(path: Seq<char>) -> bool {
    has_prefix(path, "/api/"@) || path == "/health"@ || has_prefix(path, "/__rapina"@)
}

fn same_text(a: &str, b: &str) -> (r: bool)
    ensures
        r == (a@ == b@),
{
    let n = a.unicode_len();
    if n != b.unicode_len() {
        return false;
    }
    let mut i: usize = 0;
    while i < n
        invariant
            n == a@.len(),
            n == b@.len(),
            i <= n,
            forall|k: int| 0 <= k < i ==> a@[k] == b@[k],
        decreases n - i,
    {
        if a.get_char(i) != b.get_char(i) {
            return false;
        }
        i += 1;
    }
    assert(a@ == b@);
    true
}

fn starts_with_text(s: &str, prefix: &str) -> (r: bool)
    ensures
        r == has_prefix(s@, prefix@),
{
    let n = s.unicode_len();
    let m = prefix.unicode_len();
    if m > n {
        return false;
    }
    let mut i: usize = 0;
    while i < m
        invariant
            n == s@.len(),
            m == prefix@.len(),
            m <= n,
            i <= m,
            forall|k: int| 0 <= k < i ==> s@[k] == prefix@[k],
        decreases m - i,
    {
        if s.get_char(i) != prefix.get_char(i) {
            assert(s@.subrange(0, m as int)[i as int] != prefix@[i as int]);
            return false;
        }
        i += 1;
    }
    assert(s@.subrange(0, m as int) == prefix@);
    true
}

fn ends_with_text(s: &str, suffix: &str) -> (r: bool)
    ensures
        r == has_suffix(s@, suffix@),
{
    let n = s.unicode_len();
    let m = suffix.unicode_len();
    if m > n {
        return false;
    }
    let start = n - m;
    let mut i: usize = 0;
    while i < m
        invariant
            n == s@.len(),
            m == suffix@.len(),
            m <= n,
            start == n - m,
            i <= m,
            forall|k: int| 0 <= k < i ==> s@[start + k] == suffix@[k],
        decreases m - i,
    {
        if s.get_char(start + i) != suffix.get_char(i) {
            assert(s@.subrange(start as int, n as int)[i as int] != suffix@[i as int]);
            return false;
        }
        i += 1;
    }
    assert(s@.subrange(start as int, n as int) == suffix@);
    true
}

/// The media type that a file is served with, by its extension.
pub fn mime_for(path: &str) -> (r: &'static str)
    ensures
        r@ == mime_of(extension(path@)),
{
    let n = path.unicode_len();
    let mut end: usize = n;
    while end > 0 && path.get_char(end - 1) != '.'
        invariant
            n == path@.len(),
            end <= n,
            last_dot_before(path@, end as int) == last_dot_before(path@, n as int),
        decreases end,
    {
        end -= 1;
    }
    let ext = path.substring_char(end, n);
    assert(ext@ == extension(path@));
    if same_text(ext, "html") {
        "text/html; charset=utf-8"
    } else if same_text(ext, "js") {
        "application/javascript"
    } else if same_text(ext, "wasm") {
        "application/wasm"
    } else if same_text(ext, "css") {
        "text/css; charset=utf-8"
    } else if same_text(ext, "json") {
        "application/json"
    } else if same_text(ext, "png") {
        "image/png"
    } else if same_text(ext, "svg") {
        "image/svg+xml"
    } else if same_text(ext, "ico") {
        "image/x-icon"
    } else {
        "application/octet-stream"
    }
}

/// The `cache-control` value that a file is served with.
pub fn cache_header(path: &str) -> (r: &'static str)
    ensures
        r@ == cache_of(path@),
{
    if ends_with_text(path, ".wasm") || ends_with_text(path, ".js") || ends_with_text(path, ".css") {
        "public, max-age=31536000, immutable"
    } else {
        "no-cache"
    }
}

/// Whether a request path belongs to the service rather than to the
/// dashboard.
pub fn is_api_path(path: &str) -> (r: bool)
    ensures
        r == api_path(path@),
{
    starts_with_text(path, "/api/") || same_text(path, "/health") || starts_with_text(path, "/__rapina")
}

} // verus!
