use vstd::prelude::*;

verus! {

/// Why a path was refused.
#[derive(Debug, Clone, Copy, PartialEq, Eq, Structural)]
pub enum PathError {
    /// The canonical path lies outside the sandbox root.
    PathEscape,
    /// A single-segment name holds a path separator.
    InvalidName,
    /// The path has no last segment to take.
    NoFileName,
}

/// A character that separates path segments on some platform.
pub open spec fn is_separator(c: char) -> bool {
    c == '/' || c == '\\'
}

/// A name that can stand as one path segment.
pub open spec fn valid_name(name: Seq<char>) -> bool {
    forall|i: int| 0 <= i < name.len() ==> !is_separator(#[trigger] name[i])
}

/// `s` begins with `pre`.
pub open spec fn starts_with(s: Seq<char>, pre: Seq<char>) -> bool {
    pre.len() <= s.len() && s.subrange(0, pre.len() as int) == pre
}

/// `p` is `root` or lies below it, comparing whole segments
/// (both are canonical: absolute, no `.` or `..`, no repeated or trailing `/`).
pub open spec fn within_root(root: Seq<char>, p: Seq<char>) -> bool {
    p == root || (starts_with(p, root) && root.len() < p.len() && (p[root.len() as int] == '/'
        || (root.len() > 0 && root[root.len() - 1] == '/')))
}

/// What `p` is relative to `root`, for a `p` within it.
pub open spec fn relative_to(root: Seq<char>, p: Seq<char>) -> Seq<char> {
    if p == root {
        Seq::empty()
    } else if root.len() > 0 && root[root.len() - 1] == '/' {
        p.subrange(root.len() as int, p.len() as int)
    } else {
        p.subrange(root.len() as int + 1, p.len() as int)
    }
}

/// `suffix` appended to `base` as a path: an absolute suffix replaces the base.
pub open spec fn joined(base: Seq<char>, suffix: Seq<char>) -> Seq<char> {
    if suffix.len() > 0 && suffix[0] == '/' {
        suffix
    } else if base.len() == 0 || base[base.len() - 1] == '/' {
        base + suffix
    } else {
        base + seq!['/'] + suffix
    }
}

/// Where the last segment of `p[0..end]` starts.
pub open spec fn segment_start(p: Seq<char>, end: int) -> int
    decreases end,
{
    if end <= 0 {
        0
    } else if p[end - 1] == '/' {
        end
    } else {
        segment_start(p, end - 1)
    }
}

/// The last segment of a path.
pub open spec fn file_name_of(p: Seq<char>) -> Seq<char> {
    p.subrange(segment_start(p, p.len() as int), p.len() as int)
}

/// The path with its last segment replaced by `name`.
pub open spec fn with_file_name_of(p: Seq<char>, name: Seq<char>) -> Seq<char> {
    p.subrange(0, segment_start(p, p.len() as int)) + name
}

/// Rejects any name that holds a path separator.
pub fn validate_name(name: &str) -> (r: Result<(), PathError>)
    ensures
        r is Ok <==> valid_name(name@),
        r is Err ==> r == Err::<(), PathError>(PathError::InvalidName),
{
    let n = name.unicode_len();
    let mut i: usize = 0;
    while i < n
        invariant
            n == name@.len(),
            i <= n,
            forall|j: int| 0 <= j < i ==> !is_separator(#[trigger] name@[j]),
        decreases n - i,
    {
        let c = name.get_char(i);
        if c == '/' || c == '\\' {
            return Err(PathError::InvalidName);
        }
        i = i + 1;
    }
    Ok(())
}

/// Whether `s` begins with `pre`.
pub fn has_prefix(s: &str, pre: &str) -> (r: bool)
    ensures
        r == starts_with(s@, pre@),
{
    let n = pre.unicode_len();
    let m = s.unicode_len();
    if n > m {
        return false;
    }
    let mut i: usize = 0;
    while i < n
        invariant
            n == pre@.len(),
            m == s@.len(),
            n <= m,
            i <= n,
            forall|j: int| 0 <= j < i ==> s@[j] == pre@[j],
        decreases n - i,
    {
        if s.get_char(i) != pre.get_char(i) {
            assert(s@.subrange(0, n as int)[i as int] != pre@[i as int]);
            return false;
        }
        i = i + 1;
    }
    assert(s@.subrange(0, n as int) =~= pre@);
    true
}

/// Whether the canonical path `p` is `root` or lies below it.
pub fn is_within_root(root: &str, p: &str) -> (r: bool)
    ensures
        r == within_root(root@, p@),
{
    if !has_prefix(p, root) {
        assert(p@ == root@ ==> p@.subrange(0, root@.len() as int) =~= root@);
        return false;
    }
    let n = root.unicode_len();
    let m = p.unicode_len();
    if n == m {
        assert(p@ =~= p@.subrange(0, n as int));
        return true;
    }
    if p.get_char(n) == '/' {
        return true;
    }
    n > 0 && root.get_char(n - 1) == '/'
}

/// Appends `suffix` to `base` the way a path is joined.
pub fn join_path(base: &str, suffix: &str) -> (r: String)
    ensures
        r@ == joined(base@, suffix@),
{
    proof {
        reveal_strlit("/");
    }
    let n = base.unicode_len();
    let m = suffix.unicode_len();
    if m > 0 && suffix.get_char(0) == '/' {
        return String::from_str(suffix);
    }
    if n == 0 || base.get_char(n - 1) == '/' {
        String::from_str(base).concat(suffix)
    } else {
        String::from_str(base).concat("/").concat(suffix)
    }
}

/// Keeps `canonical`, the canonical form of a path joined onto the sandbox
/// root `base`, when it lies within `base`; refuses it otherwise.
pub fn get_valid_joined_path(base: &str, canonical: &str) -> (r: Result<String, PathError>)
    ensures
        r is Ok <==> within_root(base@, canonical@),
        r matches Ok(p) ==> p@ == canonical@,
        r is Err ==> r == Err::<String, PathError>(PathError::PathEscape),
{
    if is_within_root(base, canonical) {
        Ok(String::from_str(canonical))
    } else {
        Err(PathError::PathEscape)
    }
}

/// `p` relative to `root`, for a canonical `p` within it.
pub fn strip_root(root: &str, p: &str) -> (r: Result<String, PathError>)
    ensures
        r is Ok <==> within_root(root@, p@),
        r matches Ok(s) ==> s@ == relative_to(root@, p@),
        r is Err ==> r == Err::<String, PathError>(PathError::PathEscape),
{
    if !is_within_root(root, p) {
        return Err(PathError::PathEscape);
    }
    let n = root.unicode_len();
    let m = p.unicode_len();
    if n == m {
        assert(p@ =~= p@.subrange(0, n as int));
        return Ok(String::new());
    }
    if n > 0 && root.get_char(n - 1) == '/' {
        Ok(String::from_str(p.substring_char(n, m)))
    } else {
        Ok(String::from_str(p.substring_char(n + 1, m)))
    }
}

/// Where the last segment of `p` starts.
fn last_segment_start(p: &str) -> (r: usize)
    ensures
        r == segment_start(p@, p@.len() as int),
        r <= p@.len(),
{
    let n = p.unicode_len();
    let mut i: usize = n;
    while i > 0 && p.get_char(i - 1) != '/'
        invariant
            n == p@.len(),
            i <= n,
            segment_start(p@, n as int) == segment_start(p@, i as int),
        decreases i,
    {
        i = i - 1;
    }
    i
}

/// The last segment of `p`; an error where it is empty (the root, or a trailing `/`).
pub fn file_name(p: &str) -> (r: Result<String, PathError>)
    ensures
        r is Ok <==> file_name_of(p@).len() > 0,
        r matches Ok(s) ==> s@ == file_name_of(p@),
        r is Err ==> r == Err::<String, PathError>(PathError::NoFileName),
{
    let start = last_segment_start(p);
    let n = p.unicode_len();
    if start == n {
        return Err(PathError::NoFileName);
    }
    Ok(String::from_str(p.substring_char(start, n)))
}

/// `name` placed under the directory `dir`.
pub fn join_child(dir: &str, name: &str) -> (r: String)
    ensures
        r@ == joined(dir@, name@),
{
    join_path(dir, name)
}

/// `p` with its last segment replaced by `name`.
pub fn with_file_name(p: &str, name: &str) -> (r: String)
    ensures
        r@ == with_file_name_of(p@, name@),
{
    let start = last_segment_start(p);
    String::from_str(p.substring_char(0, start)).concat(name)
}

} // verus!
