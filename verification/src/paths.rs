use vstd::prelude::*;

verus! {

#[verifier::external_type_specification]
#[verifier::external_body]
pub struct ExPathBuf(std::path::PathBuf);

/// The path that `std::path::PathBuf::join` builds from a directory and a
/// relative file name.
pub uninterp spec fn path_joined(dir: std::path::PathBuf, file: Seq<char>) -> std::path::PathBuf;

/// A name that joins as one ordinary path component: not empty, without a
/// separator or drive marker, and neither `.` nor `..`.
pub open spec fn is_plain_file_name(f: Seq<char>) -> bool {
    &&& f.len() > 0
    &&& forall|i: int| 0 <= i < f.len() ==> #[trigger] f[i] != '/' && f[i] != '\\' && f[i] != ':'
    &&& f != seq!['.']
    &&& f != seq!['.', '.']
}

/// Calls `std::path::Path::join` on `dir` with `file`. The contract claims
/// that the result is a function of the two arguments, and that joining a
/// different plain file name onto the same directory gives a different path:
/// `join` appends a relative name as the last component, and paths compare
/// by their components. Which path it is (the separator depends on the
/// target platform) is not stated.
#[verifier::external_body]
pub(crate) fn join_path(dir: &std::path::PathBuf, file: &str) -> (res: std::path::PathBuf)
    ensures
        res == path_joined(*dir, file@),
        forall|other: Seq<char>|
            is_plain_file_name(file@) && is_plain_file_name(other) && other != file@
                ==> #[trigger] path_joined(*dir, other) != res,
{
    dir.join(file)
}

} // verus!
