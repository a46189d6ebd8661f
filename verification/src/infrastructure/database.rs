//! The database file behind a SQLite URL.
use vstd::prelude::*;

use crate::text::{before_first, chars_of, find_char, has_prefix, starts_with, string_from};

verus! {

/// The text after `sqlite://`, or else after `sqlite:`, if the URL has either.
pub open spec fn sqlite_location(url: Seq<char>) -> Option<Seq<char>> {
    if starts_with(url, "sqlite://"@) {
        Some(url.skip(9))
    } else if starts_with(url, "sqlite:"@) {
        Some(url.skip(7))
    } else {
        None
    }
}

/// The file a SQLite URL names: the location before any `?`, unless it is
/// empty or `:memory:`.
pub open spec fn sqlite_file(url: Seq<char>) -> Option<Seq<char>> {
    match sqlite_location(url) {
        None => None,
        Some(location) => {
            let value = before_first(location, '?');
            if value.len() == 0 || value == ":memory:"@ {
                None
            } else {
                Some(value)
            }
        },
    }
}

/// The path of the database file of a `sqlite:` URL, if it names one; the
/// caller creates its directory before connecting.
pub fn sqlite_file_path(url: &str) -> (r: Option<String>)
    ensures
        crate::text::opt_text(r) == sqlite_file(url@),
{
    let v = chars_of(url);
    proof {
        reveal_strlit("sqlite://");
        reveal_strlit("sqlite:");
        reveal_strlit(":memory:");
    }
    let start: usize = if has_prefix(&v, "sqlite://") {
        9
    } else if has_prefix(&v, "sqlite:") {
        7
    } else {
        return None;
    };
    let end = find_char(&v, start, '?');
    let ghost location = v@.skip(start as int);
    assert(before_first(location, '?') == v@.subrange(start as int, end as int));
    let memory = end - start == 8 && v[start] == ':' && v[start + 1] == 'm' && v[start + 2] == 'e'
        && v[start + 3] == 'm' && v[start + 4] == 'o' && v[start + 5] == 'r' && v[start + 6] == 'y'
        && v[start + 7] == ':';
    let ghost value = v@.subrange(start as int, end as int);
    assert(memory == (value == ":memory:"@)) by {
        if memory {
            assert(value =~= ":memory:"@);
        }
        if value == ":memory:"@ {
            assert(value[0] == ':' && value[1] == 'm' && value[2] == 'e' && value[3] == 'm'
                && value[4] == 'o' && value[5] == 'r' && value[6] == 'y' && value[7] == ':');
        }
    }
    if end == start || memory {
        None
    } else {
        Some(string_from(&v, start, end))
    }
}

} // verus!
