//! Paths as text with `/` between their parts, and the names of the files
//! that accompany a cached file.

use crate::text::{glue, contains_char, last_index, rfind_char};
use vstd::prelude::*;

verus! {

/// `name` can be the name of a file in a directory: not empty, without `/`,
/// and neither `.` nor `..`.
pub open spec fn is_file_name(name: Seq<char>) -> bool {
    &&& name.len() > 0
    &&& !name.contains('/')
    &&& name != seq!['.']
    &&& name != seq!['.', '.']
}

/// What stands behind the last `/` of `path`, or all of it.
pub open spec fn last_part(path: Seq<char>) -> Seq<char> {
    match last_index(path, '/') {
        Some(i) => path.subrange(i + 1, path.len() as int),
        None => path,
    }
}

/// What stands before the last `/` of `path`: the root `/` where that is all,
/// nothing where there is no `/`.
pub open spec fn parent_part(path: Seq<char>) -> Seq<char> {
    match last_index(path, '/') {
        Some(i) => if i == 0 {
            seq!['/']
        } else {
            path.subrange(0, i)
        },
        None => Seq::empty(),
    }
}

/// Directory and file name of `path`, where its last part is a file name.
pub open spec fn split(path: Seq<char>) -> Option<(Seq<char>, Seq<char>)> {
    if is_file_name(last_part(path)) {
        Some((parent_part(path), last_part(path)))
    } else {
        None
    }
}

/// The path of `name` in the directory `root`.
pub open spec fn join(root: Seq<char>, name: Seq<char>) -> Seq<char> {
    if root.len() == 0 {
        name
    } else if root.last() == '/' {
        root + name
    } else {
        root + seq!['/'] + name
    }
}

/// The name of the digest file of the file `name`.
pub open spec fn digest_name(name: Seq<char>) -> Seq<char> {
    name + ".digest"@
}

/// The name of the temporary file into which the file `name` is downloaded.
pub open spec fn download_name(name: Seq<char>) -> Seq<char> {
    "."@ + name + ".download"@
}

/// The value of an optional pair of texts.
pub open spec fn text_pair_view(pair: Option<(String, String)>) -> Option<
    (Seq<char>, Seq<char>),
> {
    match pair {
        Some((a, b)) => Some((a@, b@)),
        None => None,
    }
}

/// Whether `name` can be the name of a file in a directory.
pub fn check_file_name(name: &str) -> (good: bool)
    ensures
        good == is_file_name(name@),
{
    proof {
        reveal_strlit(".");
        reveal_strlit("..");
    }
    let n: usize = name.unicode_len();
    if n == 0 || contains_char(name, '/') {
        return false;
    }
    if n == 1 && name.get_char(0) == '.' {
        assert(name@ =~= seq!['.']);
        return false;
    }
    if n == 2 && name.get_char(0) == '.' && name.get_char(1) == '.' {
        assert(name@ =~= seq!['.', '.']);
        return false;
    }
    assert(name@ != seq!['.']) by {
        if name@ == seq!['.'] {
            assert(name@[0] == '.');
        }
    }
    assert(name@ != seq!['.', '.']) by {
        if name@ == seq!['.', '.'] {
            assert(name@[0] == '.');
            assert(name@[1] == '.');
        }
    }
    true
}

/// Directory and file name of `path`.
pub fn split_path(path: &str) -> (parts: Option<(String, String)>)
    ensures
        text_pair_view(parts) == split(path@),
{
    let n: usize = path.unicode_len();
    let (parent, name) = match rfind_char(path, '/') {
        Some(i) => {
            let name = path.substring_char(i + 1, n);
            let parent = if i == 0 {
                proof {
                    reveal_strlit("/");
                }
                assert("/"@ =~= seq!['/']);
                "/"
            } else {
                path.substring_char(0, i)
            };
            (parent, name)
        },
        None => {
            proof {
                reveal_strlit("");
            }
            assert(""@ =~= Seq::<char>::empty());
            ("", path)
        },
    };
    if check_file_name(name) {
        Some((parent.to_owned(), name.to_owned()))
    } else {
        None
    }
}

/// The path of `name` in the directory `root`.
pub fn join_path(root: &str, name: &str) -> (path: String)
    ensures
        path@ == join(root@, name@),
{
    let n: usize = root.unicode_len();
    if n == 0 {
        name.to_owned()
    } else if root.get_char(n - 1) == '/' {
        glue(root, name)
    } else {
        proof {
            reveal_strlit("/");
        }
        let mut path = glue(root, "/");
        path.append(name);
        assert(path@ =~= root@ + seq!['/'] + name@);
        path
    }
}

/// The name of the digest file of the file `name`.
pub fn digest_file_name(name: &str) -> (digest: String)
    ensures
        digest@ == digest_name(name@),
{
    glue(name, ".digest")
}

/// The name of the temporary file into which the file `name` is downloaded.
pub fn download_file_name(name: &str) -> (temporary: String)
    ensures
        temporary@ == download_name(name@),
{
    let mut temporary = glue(".", name);
    temporary.append(".download");
    temporary
}

} // verus!
