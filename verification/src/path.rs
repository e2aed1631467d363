//! Paths of files, as text. They are those of Unix, as are the sockets that the programs talk over.

use vstd::prelude::*;
use vstd::string::*;
use crate::text::{chars_of, starts_with, begins};

verus! {

/// The file `name` in the directory `dir`. An absolute `name` stands for itself.
pub open spec fn inside(dir: Seq<char>, name: Seq<char>) -> Seq<char> {
    if begins(name, "/"@) || dir.len() == 0 {
        name
    } else if dir.last() == '/' {
        dir + name
    } else {
        dir + "/"@ + name
    }
}

/// The file `name` in the directory `dir`.
pub fn join_path(dir: &str, name: &str) -> (r: String)
    ensures
        r@ == inside(dir@, name@),
{
    let cs = chars_of(dir);
    let n: usize = cs.len();
    if starts_with(name, "/") || n == 0 {
        name.to_owned()
    } else if cs[n - 1] == '/' {
        dir.to_owned().concat(name)
    } else {
        dir.to_owned().concat("/").concat(name)
    }
}

/// The directory that a path stands in, where it stands in one.
pub uninterp spec fn parent(path: Seq<char>) -> Option<Seq<char>>;

/// The last name of a path, where it has one.
pub uninterp spec fn file_name(path: Seq<char>) -> Option<Seq<char>>;

/// Whether two paths are equal, part by part.
pub uninterp spec fn same_path(a: Seq<char>, b: Seq<char>) -> bool;

/// What a string that may be missing says.
pub open spec fn said(s: Option<String>) -> Option<Seq<char>> {
    match s {
        Some(t) => Some(t@),
        None => None,
    }
}

/// `std::path::Path::parent`, which on Unix depends on the path alone.
#[verifier::external_body]
fn parent_of(path: &str) -> (r: Option<String>)
    ensures
        said(r) == parent(path@),
{
    std::path::Path::new(path).parent().map(|p| p.to_string_lossy().into_owned())
}

/// `std::path::Path::file_name`, which on Unix depends on the path alone.
#[verifier::external_body]
fn file_name_of(path: &str) -> (r: Option<String>)
    ensures
        said(r) == file_name(path@),
{
    std::path::Path::new(path).file_name().map(|n| n.to_string_lossy().into_owned())
}

/// `==` of `std::path::Path`, which on Unix depends on the two paths alone.
#[verifier::external_body]
fn is_same_path(a: &str, b: &str) -> (r: bool)
    ensures
        r == same_path(a@, b@),
{
    std::path::Path::new(a) == std::path::Path::new(b)
}

/// The name of `path` in the directory `dir`, where it stands directly in it: by its
/// parent `up` and its last name `name`.
pub open spec fn child(up: Option<Seq<char>>, in_dir: bool, name: Option<Seq<char>>) -> Option<
    Seq<char>,
> {
    if up is Some && in_dir {
        name
    } else {
        None
    }
}

/// The name of `path` in the directory `dir`, where it stands directly in it.
pub open spec fn child_of(dir: Seq<char>, path: Seq<char>) -> Option<Seq<char>> {
    child(parent(path), same_path(parent(path)->0, dir), file_name(path))
}

/// The name of `path` in the directory `dir`, where it stands directly in it.
pub fn name_in(dir: &str, path: &str) -> (r: Option<String>)
    ensures
        said(r) == child_of(dir@, path@),
{
    match parent_of(path) {
        Some(up) => {
            if is_same_path(up.as_str(), dir) {
                file_name_of(path)
            } else {
                None
            }
        },
        None => None,
    }
}

/// A file in a directory is found under the name of the directory and its own, with one slash
/// between; an absolute name leads to the file by itself.
pub proof fn law_a_file_is_found_in_its_directory(dir: Seq<char>, name: Seq<char>)
    ensures
        dir.len() > 0 && dir.last() != '/' && !(name.len() > 0 && name[0] == '/') ==> inside(
            dir,
            name,
        ) == dir + seq!['/'] + name,
        !(name.len() > 0 && name[0] == '/') ==> inside(dir + seq!['/'], name) == dir + seq!['/']
            + name,
        name.len() > 0 && name[0] == '/' ==> inside(dir, name) == name,
        inside(Seq::empty(), name) == name,
{
    reveal_strlit("/");
    assert("/"@ =~= seq!['/']);
    if begins(name, "/"@) {
        assert(name.take(1)[0] == name[0]);
    }
    if name.len() > 0 && name[0] == '/' {
        assert(name.take(1) =~= "/"@);
    }
    assert((dir + seq!['/']).last() == '/');
}

} // verus!
