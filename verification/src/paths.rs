//! File system paths, taken as the bytes that the platform's encoding gives them.

use std::path::{Path, PathBuf};
use vstd::prelude::*;
use vstd::utf8::encode_utf8;

verus! {

#[verifier::external_type_specification]
#[verifier::external_body]
pub struct ExPath(Path);

#[verifier::external_type_specification]
#[verifier::external_body]
pub struct ExPathBuf(PathBuf);

/// The bytes that make up a path, as `OsStr::as_encoded_bytes` shows them.
pub uninterp spec fn path_bytes(path: &Path) -> Seq<u8>;

/// The bytes that make up an owned path, as `OsStr::as_encoded_bytes` shows them.
pub uninterp spec fn path_buf_bytes(path: PathBuf) -> Seq<u8>;

/// Whether two different rows of bytes are the same path to `PathBuf`'s `==`, which goes by the
/// components of a path on the platform that the library is built for.
pub uninterp spec fn same_components(a: Seq<u8>, b: Seq<u8>) -> bool;

/// Whether some environment and file system let a search for `name` end at the path `found`, or
/// nowhere.
pub uninterp spec fn search_may_end(name: Seq<u8>, found: Option<Seq<u8>>) -> bool;

/// Whether two paths are the same path.
pub open spec fn same_path(a: Seq<u8>, b: Seq<u8>) -> bool {
    a == b || same_components(a, b)
}

/// The bytes that make up a path, if there is a path.
pub open spec fn optional_path_bytes(path: Option<PathBuf>) -> Option<Seq<u8>> {
    match path {
        Some(path) => Some(path_buf_bytes(path)),
        None => None,
    }
}

/// Paths made of the same bytes are the same path, and so are those whose components are the same;
/// no others are.
pub proof fn law_same_path(a: Seq<u8>, b: Seq<u8>)
    ensures
        same_path(a, a),
        a != b ==> same_path(a, b) == same_components(a, b),
{
}

/// There are bytes exactly if there is a path, and they are its bytes.
pub proof fn law_optional_path_bytes(path: PathBuf)
    ensures
        optional_path_bytes(Some(path)) == Some(path_buf_bytes(path)),
        optional_path_bytes(None) == None::<Seq<u8>>,
{
}

/// `PathBuf::from` on text: the path is made of the bytes of the text.
#[verifier::external_body]
pub(crate) fn path_from(text: String) -> (r: PathBuf)
    ensures
        path_buf_bytes(r) == encode_utf8(text@),
{
    PathBuf::from(text)
}

/// `PathBuf::as_path`: the same path, borrowed.
#[verifier::external_body]
pub(crate) fn as_path(path: &PathBuf) -> (r: &Path)
    ensures
        path_bytes(r) == path_buf_bytes(*path),
{
    path.as_path()
}

/// `PathBuf::clone`: a path made of the same bytes.
#[verifier::external_body]
pub(crate) fn clone_path(path: &PathBuf) -> (r: PathBuf)
    ensures
        path_buf_bytes(r) == path_buf_bytes(*path),
{
    path.clone()
}

/// `==` on paths. Equal bytes are an equal path; which other paths are equal rests on how the
/// platform parts a path into components, and has only a name here.
#[verifier::external_body]
pub(crate) fn paths_equal(a: &PathBuf, b: &PathBuf) -> (r: bool)
    ensures
        r == (path_buf_bytes(*a) == path_buf_bytes(*b) || same_components(
            path_buf_bytes(*a),
            path_buf_bytes(*b),
        )),
{
    a == b
}

/// `OsStr::as_encoded_bytes`: the bytes that make up a path.
#[verifier::external_body]
fn encoded_bytes(path: &PathBuf) -> (r: Vec<u8>)
    ensures
        r@ == path_buf_bytes(*path),
{
    path.as_os_str().as_encoded_bytes().to_vec()
}

/// Whether two paths are made up of the same bytes.
pub fn same_bytes(a: &PathBuf, b: &PathBuf) -> (r: bool)
    ensures
        r == (path_buf_bytes(*a) == path_buf_bytes(*b)),
{
    let x = encoded_bytes(a);
    let y = encoded_bytes(b);
    if x.len() != y.len() {
        return false;
    }
    let mut i: usize = 0;
    while i < x.len()
        invariant
            i <= x.len(),
            x.len() == y.len(),
            x@ == path_buf_bytes(*a),
            y@ == path_buf_bytes(*b),
            forall|j: int| 0 <= j < i ==> x@[j] == y@[j],
        decreases x.len() - i,
    {
        if x[i] != y[i] {
            assert(x@[i as int] != y@[i as int]);
            return false;
        }
        i += 1;
    }
    assert(x@ =~= y@);
    true
}

/// `which::which`: the path of the executable that `name` stands for, if one is found.
///
/// What is found, and whether anything is, rests on the file system, the working directory and
/// `PATH`. It is only said that this is an outcome of a search for `name`.
#[verifier::external_body]
pub(crate) fn search_executable(name: &Path) -> (r: Option<PathBuf>)
    ensures
        search_may_end(path_bytes(name), optional_path_bytes(r)),
{
    which::which(name).ok()
}

} // verus!
