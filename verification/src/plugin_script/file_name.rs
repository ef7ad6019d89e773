//! The file name of a path that is written in a command.
//!
//! Platforms read a path in two ways. On one, slashes alone part its
//! components. On the other, backslashes part them too, and a drive or a server
//! with its share may stand before them.

use vstd::prelude::*;

verus! {

/// What stands behind the last slash of `path`.
pub open spec fn last_segment(path: Seq<char>) -> Seq<char>
    decreases path.len(),
{
    if path.len() == 0 || path.last() == '/' {
        Seq::empty()
    } else {
        last_segment(path.drop_last()).push(path.last())
    }
}

/// The last component of a path whose components slashes part, where it is a
/// name. Slashes at the end and components `.` do not count; `..` is no name.
pub open spec fn slash_file_name(path: Seq<char>) -> Option<Seq<char>>
    decreases path.len(),
{
    if path.len() == 0 || path == "."@ {
        None
    } else if path.last() == '/' || last_segment(path) == "."@ {
        slash_file_name(path.drop_last())
    } else if last_segment(path) == ".."@ {
        None
    } else {
        Some(last_segment(path))
    }
}

/// A slash or a backslash.
pub open spec fn is_any_slash(c: char) -> bool {
    c == '/' || c == '\\'
}

/// `path` with slashes in place of its backslashes.
pub open spec fn slashed(path: Seq<char>) -> Seq<char> {
    path.map_values(
        |c: char|
            if c == '\\' {
                '/'
            } else {
                c
            },
    )
}

/// `path` without a drive, which is a letter and a colon.
pub open spec fn without_drive(path: Seq<char>) -> Seq<char> {
    if path.len() > 1 && ('a' <= path[0] <= 'z' || 'A' <= path[0] <= 'Z') && path[1] == ':' {
        path.skip(2)
    } else {
        path
    }
}

/// The path starts as one that names a server does: with two slashes or
/// backslashes.
pub open spec fn starts_with_server(path: Seq<char>) -> bool {
    path.len() > 1 && is_any_slash(path[0]) && is_any_slash(path[1])
}

/// The first slash or backslash of `path` from `i` on, or its end.
pub open spec fn segment_end(path: Seq<char>, i: int) -> int
    decreases path.len() - i,
{
    if i < 0 || i >= path.len() {
        path.len() as int
    } else if is_any_slash(path[i]) {
        i
    } else {
        segment_end(path, i + 1)
    }
}

/// `path` without a server and its share, where it names both.
pub open spec fn without_server(path: Seq<char>) -> Seq<char> {
    let server_end = segment_end(path, 2);
    let share_end = segment_end(path, server_end + 1);
    if starts_with_server(path) && 2 < server_end && server_end + 1 < share_end {
        path.skip(share_end)
    } else {
        path
    }
}

/// The path may start with one of the prefixes `\\?\` and `\\.\`, behind which
/// one platform reads paths by rules of their own.
pub open spec fn is_verbatim(path: Seq<char>) -> bool {
    &&& starts_with_server(path)
    &&& path.len() > 2 && (path[2] == '?' || path[2] == '.')
    &&& path.len() == 3 || is_any_slash(path[3])
}

/// Where what belongs to the prefix of a verbatim path ends: a server and its
/// share behind `UNC`, one segment otherwise.
pub open spec fn verbatim_prefix_end(path: Seq<char>) -> int {
    let first_end = segment_end(path, 4);
    if path.len() >= 4 && path.subrange(4, first_end) == "UNC"@ {
        segment_end(path, segment_end(path, first_end + 1) + 1)
    } else {
        first_end
    }
}

/// A verbatim path that ends in a name behind its prefix, and is written with
/// backslashes alone.
pub open spec fn has_verbatim_name(path: Seq<char>) -> bool {
    &&& is_verbatim(path)
    &&& !path.contains('/')
    &&& verbatim_prefix_end(path) < path.len()
    &&& last_segment(slashed(path)).len() > 0
    &&& last_segment(slashed(path)) != "."@
    &&& last_segment(slashed(path)) != ".."@
}

/// A path of which it is open what one of the platforms takes its file name to
/// be: a verbatim path that does not end in a name behind its prefix.
pub open spec fn is_obscure(path: Seq<char>) -> bool {
    is_verbatim(path) && !has_verbatim_name(path)
}

/// The file name of a path in which a drive may stand before the components,
/// and backslashes part those too.
pub open spec fn drive_file_name(path: Seq<char>) -> Option<Seq<char>> {
    slash_file_name(slashed(without_drive(path)))
}

/// The file name of a path in which a server and its share stand before the
/// components, and backslashes part those too.
pub open spec fn server_file_name(path: Seq<char>) -> Option<Seq<char>> {
    slash_file_name(slashed(without_server(path)))
}

/// What the file name of `path` may be, depending on how the platform reads it.
pub open spec fn may_be_file_name(path: Seq<char>, name: Option<Seq<char>>) -> bool {
    ||| name == slash_file_name(path)
    ||| name == drive_file_name(path)
    ||| starts_with_server(path) && name == server_file_name(path)
}

/// A path that every platform reads alike: slashes alone part its components,
/// and it has no drive or server before them.
pub open spec fn is_portable(path: Seq<char>) -> bool {
    &&& !path.contains('\\')
    &&& !path.contains(':')
    &&& !starts_with_server(path)
}

/// A portable path has one file name on all platforms.
pub proof fn portable_file_name_is_one(path: Seq<char>, name: Option<Seq<char>>)
    requires
        is_portable(path),
        may_be_file_name(path, name),
    ensures
        name == slash_file_name(path),
{
    assert(without_drive(path) == path) by {
        if path.len() > 1 {
            assert(path.contains(path[1]));
        }
    }
    assert(slashed(path) =~= path) by {
        assert forall|i: int| 0 <= i < path.len() implies path[i] != '\\' by {
            assert(path.contains(path[i]));
        }
    }
}

/// Calls `std::path::Path::file_name`: the last component of `path`, where it is
/// a name. Which of the two ways the platform reads `path` in is left open. Of a
/// verbatim or device path that is nothing but a prefix, holds a slash, or ends
/// in no name, nothing is said.
#[verifier::external_body]
pub(crate) fn path_file_name(path: &str) -> (name: Option<String>)
    ensures
        !is_obscure(path@) ==> may_be_file_name(path@, name.deep_view()),
{
    std::path::Path::new(path).file_name().and_then(|name| name.to_str()).map(
        |name| name.to_string(),
    )
}

} // verus!
