//! Composition of directory paths, with `/` as the separator.

use vstd::prelude::*;

verus! {

/// The path of the entry `name` inside the directory `dir`: the two parts with
/// one `/` between them. No separator is added to an empty `dir`, nor to one
/// that already ends in `/` (the root directory).
pub open spec fn joined(dir: Seq<char>, name: Seq<char>) -> Seq<char> {
    if dir.len() == 0 || dir.last() == '/' {
        dir + name
    } else {
        dir + seq!['/'] + name
    }
}

/// Composes the path of the entry `name` inside the directory `dir`.
pub fn child_path(dir: &String, name: &String) -> (path: String)
    ensures
        path@ == joined(dir@, name@),
{
    let mut path = dir.clone();
    let len: usize = dir.as_str().unicode_len();
    if len > 0 && dir.as_str().get_char(len - 1) != '/' {
        proof {
            reveal_strlit("/");
        }
        path.append("/");
        assert("/"@ =~= seq!['/']);
    }
    path.append(name.as_str());
    path
}

} // verus!
