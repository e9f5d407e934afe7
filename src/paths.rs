//! Paths, held as their text, and the few calls into std's path handling.
use vstd::prelude::*;

verus! {

/// The path that joining `file` onto directory `dir` gives.
pub uninterp spec fn joined_path(dir: Seq<char>, file: Seq<char>) -> Seq<char>;

/// Relies on std::path::Path::join: the path of `file` within `dir`, shown as
/// text (both are text, so nothing is lost).
#[verifier::external_body]
pub(crate) fn join_path(dir: &str, file: &str) -> (r: String)
    ensures
        r@ == joined_path(dir@, file@),
{
    std::path::Path::new(dir).join(file).to_string_lossy().into_owned()
}

/// Relies on std::path::Path::exists: whether something is at `path` now.
#[verifier::external_body]
pub(crate) fn path_exists(path: &str) -> (r: bool) {
    std::path::Path::new(path).exists()
}

/// Where the solver binary lies under the solver project's directory
/// `lean_backend`: `.lake/build/bin/advisor`.
pub fn advisor_path(lean_backend: &str) -> (r: String)
    ensures
        r@ == joined_path(joined_path(joined_path(joined_path(lean_backend@, ".lake"@), "build"@), "bin"@), "advisor"@),
{
    let p = join_path(lean_backend, ".lake");
    let p = join_path(p.as_str(), "build");
    let p = join_path(p.as_str(), "bin");
    join_path(p.as_str(), "advisor")
}

} // verus!
