//! Name of the sanitised document written beside its source.
use vstd::prelude::*;
use vstd::string::StringExecFns;

verus! {

/// The file stem (name without its extension) that std gives for a path.
pub uninterp spec fn file_stem_of(path: Seq<char>) -> Option<Seq<char>>;

/// The path that std gives when the last component of `path` is replaced
/// by `name`.
pub uninterp spec fn with_file_name_of(path: Seq<char>, name: Seq<char>) -> Seq<char>;

/// Relies on std's `Path::file_stem`: the final component without its
/// extension, or nothing when the path has no file name. A stem of a UTF-8
/// path is UTF-8, so the conversion back to a string keeps it whole.
#[verifier::external_body]
fn file_stem(path: &str) -> (r: Option<String>)
    ensures
        r is Some <==> file_stem_of(path@) is Some,
        r matches Some(s) ==> file_stem_of(path@) == Some(s@),
{
    match std::path::Path::new(path).file_stem() {
        Some(s) => Some(s.to_string_lossy().into_owned()),
        None => None,
    }
}

/// Relies on std's `Path::with_file_name`: the path with its last
/// component replaced by `name` (or `name` appended where there is none).
/// Both parts are UTF-8, so the conversion back to a string keeps it whole.
#[verifier::external_body]
fn with_file_name(path: &str, name: &str) -> (r: String)
    ensures
        r@ == with_file_name_of(path@, name@),
{
    std::path::Path::new(path).with_file_name(name).to_string_lossy().into_owned()
}

/// Suffix and extension of the sanitised document's name.
pub open spec fn safe_suffix() -> Seq<char> {
    "-safe.pdf"@
}

/// Stem used when the input path has none.
pub open spec fn fallback_stem() -> Seq<char> {
    "output"@
}

/// Name of the sanitised document for `input`: in the same directory,
/// named after the input's stem (or `output`) followed by `-safe.pdf`.
pub open spec fn output_filename_of(input: Seq<char>) -> Seq<char> {
    let stem = match file_stem_of(input) {
        Some(s) => s,
        None => fallback_stem(),
    };
    with_file_name_of(input, stem + safe_suffix())
}

/// Path of the sanitised document written for `input_path`.
pub fn generate_output_filename(input_path: &str) -> (r: String)
    ensures
        r@ == output_filename_of(input_path@),
{
    let stem = match file_stem(input_path) {
        Some(s) => s,
        None => "output".to_owned(),
    };
    let name = stem.concat("-safe.pdf");
    with_file_name(input_path, name.as_str())
}

} // verus!
