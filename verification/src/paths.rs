//! Path arithmetic on text: joining, and expansion of a leading `~` or
//! `$HOME`.
//!
//! Paths are plain strings with `/` as the separator. Nothing here looks
//! at the file system.

use vstd::prelude::*;
use vstd::string::{StrSliceExecFns, StringExecFns};
use crate::error::{Error, ErrorKind, ErrorView};
use crate::text::chars_of;

verus! {

/// `base` extended by `name`: `name` alone where it is absolute, else
/// `base`, a separator unless `base` is empty or ends with one, and `name`.
pub open spec fn spec_join(base: Seq<char>, name: Seq<char>) -> Seq<char> {
    if name.len() > 0 && name[0] == '/' {
        name
    } else if base.len() == 0 || base.last() == '/' {
        base + name
    } else {
        base + seq!['/'] + name
    }
}

/// `s` without its leading separators and `.` components.
pub open spec fn trim_front(s: Seq<char>) -> Seq<char>
    decreases s.len(),
{
    if s.len() == 0 {
        s
    } else if s[0] == '/' || (s[0] == '.' && (s.len() == 1 || s[1] == '/')) {
        trim_front(s.skip(1))
    } else {
        s
    }
}

/// `s` without its trailing separators and `.` components.
pub open spec fn trim_back(s: Seq<char>) -> Seq<char>
    decreases s.len(),
{
    if s.len() == 0 {
        s
    } else if s.last() == '/' || (s.last() == '.' && (s.len() == 1 || s[s.len() - 2] == '/')) {
        trim_back(s.drop_last())
    } else {
        s
    }
}

/// How many characters of `path` stand for the home directory: one where
/// its first component is `~`, five where that is `$HOME`, none
/// otherwise.
pub open spec fn home_marker(path: Seq<char>) -> int {
    if path.len() > 0 && path[0] == '~' && (path.len() == 1 || path[1] == '/') {
        1
    } else if path.len() >= 5 && path[0] == '$' && path[1] == 'H' && path[2] == 'O' && path[3]
        == 'M' && path[4] == 'E' && (path.len() == 5 || path[5] == '/') {
        5
    } else {
        0
    }
}

/// Whether the first component of `path` is `~` or `$HOME`.
pub open spec fn starts_at_home(path: Seq<char>) -> bool {
    home_marker(path) > 0
}

/// `path` with a leading `~` or `$HOME` component replaced by `home`.
/// What follows the component is joined to `home` without the separators
/// and `.` components at either of its ends. Any other path is returned
/// as it is.
pub open spec fn spec_expand(path: Seq<char>, home: Seq<char>) -> Seq<char> {
    if starts_at_home(path) {
        spec_join(home, trim_back(trim_front(path.skip(home_marker(path)))))
    } else {
        path
    }
}

/// The error for a home directory that is not known.
pub open spec fn home_unknown() -> ErrorView {
    ErrorView {
        kind: ErrorKind::Config,
        ctx: "could not find home directory: HOME is not set"@,
    }
}

proof fn lemma_trim_front_relative(s: Seq<char>)
    ensures
        trim_front(s).len() > 0 ==> trim_front(s)[0] != '/',
    decreases s.len(),
{
    if s.len() > 0 && (s[0] == '/' || (s[0] == '.' && (s.len() == 1 || s[1] == '/'))) {
        lemma_trim_front_relative(s.skip(1));
    }
}

proof fn lemma_trim_back_prefix(s: Seq<char>)
    ensures
        trim_back(s).len() <= s.len(),
        trim_back(s) == s.take(trim_back(s).len() as int),
    decreases s.len(),
{
    if s.len() > 0 && (s.last() == '/' || (s.last() == '.' && (s.len() == 1 || s[s.len() - 2]
        == '/'))) {
        lemma_trim_back_prefix(s.drop_last());
        let t = trim_back(s.drop_last());
        assert(s.drop_last().take(t.len() as int) =~= s.take(t.len() as int));
    } else {
        assert(s.take(s.len() as int) =~= s);
    }
}

/// A path under `~` or `$HOME` expands to a path under the home
/// directory: the expansion starts with `home`, whatever follows the
/// marker.
pub proof fn lemma_expand_under_home(path: Seq<char>, home: Seq<char>)
    requires
        starts_at_home(path),
    ensures
        home.is_prefix_of(spec_expand(path, home)),
{
    let front = trim_front(path.skip(home_marker(path)));
    let tail = trim_back(front);
    lemma_trim_front_relative(path.skip(home_marker(path)));
    lemma_trim_back_prefix(front);
    if tail.len() > 0 {
        assert(tail[0] == front[0]);
    }
    let joined = spec_join(home, tail);
    assert(joined.subrange(0, home.len() as int) =~= home);
}

/// A path whose first component is neither `~` nor `$HOME` is left as
/// it is.
pub proof fn lemma_expand_keeps_other_paths(path: Seq<char>, home: Seq<char>)
    requires
        !starts_at_home(path),
    ensures
        spec_expand(path, home) == path,
{
}

/// Joins `name` to `base`.
pub fn join_path(base: &str, name: &str) -> (joined: String)
    ensures
        joined@ == spec_join(base@, name@),
{
    if !name.is_empty() && name.get_char(0) == '/' {
        return String::from_str(name);
    }
    let n = base.unicode_len();
    let mut joined = String::from_str(base);
    if n > 0 && base.get_char(n - 1) != '/' {
        proof {
            reveal_strlit("/");
            assert("/"@ =~= seq!['/']);
        }
        joined.append("/");
    }
    joined.append(name);
    joined
}

fn marker_length(path: &Vec<char>) -> (k: usize)
    ensures
        k == home_marker(path@),
        k <= path.len(),
{
    let n = path.len();
    if n > 0 && path[0] == '~' && (n == 1 || path[1] == '/') {
        1
    } else if n >= 5 && path[0] == '$' && path[1] == 'H' && path[2] == 'O' && path[3] == 'M'
        && path[4] == 'E' && (n == 5 || path[5] == '/') {
        5
    } else {
        0
    }
}

/// Expands a leading `~` or `$HOME` in `path` to the home directory
/// `home`.
///
/// The home directory must be known even where `path` holds neither:
/// without it the result is a configuration error.
pub fn resolve_home_dir(path: &str, home: Option<&str>) -> (r: Result<String, Error>)
    ensures
        match r {
            Ok(resolved) => home is Some && resolved@ == spec_expand(path@, home->0@),
            Err(e) => home is None && e@ == home_unknown(),
        },
{
    let home = match home {
        Some(home) => home,
        None => {
            return Err(
                Error::new(
                    ErrorKind::Config,
                    String::from_str("could not find home directory: HOME is not set"),
                ),
            );
        },
    };
    let chars = chars_of(path);
    let n = chars.len();
    let marker = marker_length(&chars);
    if marker == 0 {
        return Ok(String::from_str(path));
    }
    let ghost rest = path@.skip(marker as int);
    let mut start: usize = marker;
    assert(path@.subrange(marker as int, n as int) =~= rest);
    while start < n && (chars[start] == '/' || (chars[start] == '.' && (n - start == 1
        || chars[start + 1] == '/')))
        invariant
            marker <= start <= n,
            n == chars.len(),
            chars@ == path@,
            trim_front(path@.subrange(start as int, n as int)) == trim_front(rest),
        decreases n - start,
    {
        assert(path@.subrange(start as int, n as int).skip(1) =~= path@.subrange(
            start + 1,
            n as int,
        ));
        start = start + 1;
    }
    let ghost front = path@.subrange(start as int, n as int);
    assert(trim_front(rest) == front);
    let mut end: usize = n;
    assert(path@.subrange(start as int, n as int) =~= front);
    while end > start && (chars[end - 1] == '/' || (chars[end - 1] == '.' && (end - 1 == start
        || chars[end - 2] == '/')))
        invariant
            start <= end <= n,
            n == chars.len(),
            chars@ == path@,
            trim_back(path@.subrange(start as int, end as int)) == trim_back(front),
        decreases end - start,
    {
        assert(path@.subrange(start as int, end as int).drop_last() =~= path@.subrange(
            start as int,
            end - 1,
        ));
        end = end - 1;
    }
    assert(trim_back(front) == path@.subrange(start as int, end as int));
    let tail = path.substring_char(start, end);
    Ok(join_path(home, tail))
}

} // verus!
