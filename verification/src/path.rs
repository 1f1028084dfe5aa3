//! File-system path text (Unix paths, `/` separated).
use vstd::prelude::*;

use crate::text::{last_index_of, split_on};

verus! {

/// The named components of `path`: the pieces between `/`s, without the
/// empty pieces of repeated or trailing separators and without `.`.
pub open spec fn path_pieces(path: Seq<char>) -> Seq<Seq<char>> {
    split_on(path, '/').filter(|p: Seq<char>| p.len() > 0 && p != "."@)
}

/// The final component of `path`; none where the path has no named
/// component or ends in `..`.
pub open spec fn file_name_of(path: Seq<char>) -> Option<Seq<char>> {
    let pieces = path_pieces(path);
    if pieces.len() == 0 || pieces.last() == ".."@ {
        None
    } else {
        Some(pieces.last())
    }
}

/// The final component of `path` without its extension: the part before the
/// last `.`, or the whole component where it has no `.` other than a leading
/// one.
pub open spec fn file_stem_of(path: Seq<char>) -> Option<Seq<char>> {
    match file_name_of(path) {
        Some(name) => match last_index_of(name, '.') {
            Some(i) => if i == 0 {
                Some(name)
            } else {
                Some(name.take(i))
            },
            None => Some(name),
        },
        None => None,
    }
}

/// `std::path::Path::file_stem`, taken as text. Its documentation: the stem
/// is none where there is no file name (the final component, none where the
/// path ends in `..`; `.` components and repeated or trailing separators do
/// not count), the whole file name where it has no `.` or only a leading one,
/// and otherwise the part of the file name before the final `.`.
#[verifier::external_body]
pub(crate) fn file_stem(path: &str) -> (r: Option<String>)
    ensures
        r matches Some(s) ==> file_stem_of(path@) == Some(s@),
        r is None ==> file_stem_of(path@) is None,
{
    std::path::Path::new(path).file_stem().and_then(|s| s.to_str()).map(str::to_owned)
}

/// `std::path::Path::file_name`, taken as text. Its documentation: the final
/// component of the path, where there is one (`.` components and repeated or
/// trailing separators do not count); none where the path ends in `..`.
#[verifier::external_body]
fn file_name(path: &str) -> (r: Option<String>)
    ensures
        r matches Some(s) ==> file_name_of(path@) == Some(s@),
        r is None ==> file_name_of(path@) is None,
{
    std::path::Path::new(path).file_name().and_then(|s| s.to_str()).map(str::to_owned)
}

/// How a file is named in messages: its file name, or the whole path where
/// it has none.
pub fn file_label(path: &str) -> (r: String)
    ensures
        r@ == match file_name_of(path@) {
            Some(name) => name,
            None => path@,
        },
{
    match file_name(path) {
        Some(name) => name,
        None => path.to_owned(),
    }
}

} // verus!
