use vstd::prelude::*;

verus! {

/// The final component of a path as `camino::Utf8Path::file_name` reports it
/// (`None` for a path such as `/` or one that ends in `..`).
pub uninterp spec fn path_file_name(path: Seq<char>) -> Option<Seq<char>>;

/// The path that `camino::Utf8Path::with_extension` builds from a path and an extension.
pub uninterp spec fn path_with_extension(path: Seq<char>, ext: Seq<char>) -> Seq<char>;

/// Index of the last occurrence of `c` in `s`, or -1 when `c` does not occur.
pub open spec fn last_index_of(s: Seq<char>, c: char) -> int
    decreases s.len(),
{
    if s.len() == 0 {
        -1
    } else if s.last() == c {
        s.len() - 1
    } else {
        last_index_of(s.drop_last(), c)
    }
}

/// The extension of a file name: what follows its final `.`, unless the name
/// has no `.` or its only `.` is the first character.
pub open spec fn name_extension(name: Seq<char>) -> Option<Seq<char>> {
    let k = last_index_of(name, '.');
    if k <= 0 {
        None
    } else {
        Some(name.subrange(k + 1, name.len() as int))
    }
}

/// The extension of the file name of a path, if both exist.
pub open spec fn path_extension(path: Seq<char>) -> Option<Seq<char>> {
    match path_file_name(path) {
        Some(name) => name_extension(name),
        None => None,
    }
}

/// Calls `camino::Utf8Path::file_name`; its result is named `path_file_name`.
#[verifier::external_body]
pub(crate) fn file_name_of(path: &str) -> (r: Option<String>)
    ensures
        r.deep_view() == path_file_name(path@),
{
    camino::Utf8Path::new(path).file_name().map(|n| n.to_string())
}

/// Calls `camino::Utf8Path::extension`, which its documentation describes as
/// the part of `file_name` after the final `.` (none when the name has no `.`
/// or only a leading one).
#[verifier::external_body]
pub(crate) fn extension_of(path: &str) -> (r: Option<String>)
    ensures
        r.deep_view() == path_extension(path@),
{
    camino::Utf8Path::new(path).extension().map(|e| e.to_string())
}

/// Calls `camino::Utf8Path::with_extension`; its result is named
/// `path_with_extension`. The extension holds no path separator (`/`, nor
/// `\` on Windows), on which std panics.
#[verifier::external_body]
pub(crate) fn with_extension_of(path: &str, ext: &str) -> (r: String)
    requires
        !ext@.contains('/'),
        !ext@.contains('\\'),
    ensures
        r@ == path_with_extension(path@, ext@),
{
    camino::Utf8Path::new(path).with_extension(ext).into_string()
}

} // verus!
