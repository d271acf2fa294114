//! Paths of files, as text with slashes between the parts.

use crate::model::text;
use vstd::prelude::*;
use vstd::string::*;

verus! {

/// The path of `part` in the directory `dir`: the two with a slash between
/// them, which is left out where `dir` is empty or ends in a slash already.
pub open spec fn joined(dir: Seq<char>, part: Seq<char>) -> Seq<char> {
    if dir.len() == 0 || dir.last() == '/' {
        dir + part
    } else {
        dir + seq!['/'] + part
    }
}

/// Appends `part` to the path `dir`.
pub fn join(dir: &mut String, part: &str)
    ensures
        final(dir)@ == joined(old(dir)@, part@),
{
    let n = dir.as_str().unicode_len();
    if n > 0 && dir.as_str().get_char(n - 1) != '/' {
        proof {
            reveal_strlit("/");
            assert("/"@ =~= seq!['/']);
        }
        dir.append("/");
    }
    dir.append(part);
}

/// The extension that is found in `path` before the position `end`, looking
/// from there towards the front: the rest of the path behind the first dot
/// that is met. There is none where a slash is met first, where the front
/// of the path is reached, or where the dot is the first character of the
/// file name.
pub open spec fn extension_before(path: Seq<char>, end: int) -> Option<Seq<char>>
    decreases end,
{
    if end <= 0 || end > path.len() {
        None
    } else if path[end - 1] == '/' {
        None
    } else if path[end - 1] == '.' {
        if end - 1 > 0 && path[end - 2] != '/' {
            Some(path.subrange(end, path.len() as int))
        } else {
            None
        }
    } else {
        extension_before(path, end - 1)
    }
}

/// The extension of the file that a path names: what stands behind the last
/// dot of the file name, which is the part of the path behind its last
/// slash. A file name without a dot has none, nor one whose only dot is its
/// first character.
pub open spec fn extension_of_path(path: Seq<char>) -> Option<Seq<char>> {
    extension_before(path, path.len() as int)
}

/// The extension of the file that `path` names.
pub fn extension(path: &str) -> (ext: Option<String>)
    ensures
        text(ext) == extension_of_path(path@),
{
    let n = path.unicode_len();
    let mut i = n;
    while i > 0
        invariant
            i <= n,
            n == path@.len(),
            extension_before(path@, i as int) == extension_of_path(path@),
        decreases i,
    {
        let c = path.get_char(i - 1);
        if c == '/' {
            return None;
        }
        if c == '.' {
            if i - 1 > 0 && path.get_char(i - 2) != '/' {
                return Some(path.substring_char(i, n).to_owned());
            } else {
                return None;
            }
        }
        i -= 1;
    }
    None
}

} // verus!
