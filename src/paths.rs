//! File paths held as strings, with the few operations of `std::path` that
//! the catalog needs.
use vstd::prelude::*;

verus! {

/// The final component of a path, when it names a file (`Path::file_name`).
pub uninterp spec fn file_name_of(p: Seq<char>) -> Option<Seq<char>>;

/// The file name without its last extension (`Path::file_stem`).
pub uninterp spec fn file_stem_of(p: Seq<char>) -> Option<Seq<char>>;

/// The last extension of the file name (`Path::extension`).
pub uninterp spec fn extension_of(p: Seq<char>) -> Option<Seq<char>>;

/// A single path component: not empty, and without a separator.
pub open spec fn is_component(n: Seq<char>) -> bool {
    n.len() > 0 && forall|k: int| 0 <= k < n.len() ==> n[k] != '/'
}

/// `tail` appended to `base` as a further component, as `Path::join` does
/// on Unix: an absolute `tail` replaces `base`; otherwise a separator goes
/// between them unless `base` is empty or already ends in one.
pub open spec fn joined(base: Seq<char>, tail: Seq<char>) -> Seq<char> {
    if tail.len() > 0 && tail[0] == '/' {
        tail
    } else if base.len() == 0 || base.last() == '/' {
        base + tail
    } else {
        base + seq!['/'] + tail
    }
}

/// Joining one base with two components gives the same path only for the
/// same component.
pub proof fn lemma_joined_injective(base: Seq<char>, a: Seq<char>, b: Seq<char>)
    requires
        is_component(a),
        is_component(b),
        joined(base, a) == joined(base, b),
    ensures
        a == b,
{
    assert(a[0] != '/' && b[0] != '/');
    let j = joined(base, a);
    if base.len() == 0 || base.last() == '/' {
        assert(a =~= j.subrange(base.len() as int, j.len() as int));
        assert(b =~= j.subrange(base.len() as int, j.len() as int));
    } else {
        assert(a =~= j.subrange(base.len() + 1int, j.len() as int));
        assert(b =~= j.subrange(base.len() + 1int, j.len() as int));
    }
}

/// The characters of an optional string.
pub open spec fn opt_view(o: Option<String>) -> Option<Seq<char>> {
    match o {
        Some(s) => Some(s@),
        None => None,
    }
}

/// Relies on `Path::file_name`: the final component, or nothing when the
/// path ends in `..` or is a root. A component is never empty and holds no
/// separator.
#[verifier::external_body]
pub(crate) fn file_name(p: &str) -> (r: Option<String>)
    ensures
        opt_view(r) == file_name_of(p@),
        r matches Some(n) ==> is_component(n@),
{
    std::path::Path::new(p).file_name().map(|n| n.to_string_lossy().into_owned())
}

/// Relies on `Path::file_stem`: the file name without its last extension.
#[verifier::external_body]
pub(crate) fn file_stem(p: &str) -> (r: Option<String>)
    ensures
        opt_view(r) == file_stem_of(p@),
{
    std::path::Path::new(p).file_stem().map(|n| n.to_string_lossy().into_owned())
}

/// Relies on `Path::extension`.
#[verifier::external_body]
pub(crate) fn extension(p: &str) -> (r: Option<String>)
    ensures
        opt_view(r) == extension_of(p@),
{
    std::path::Path::new(p).extension().map(|n| n.to_string_lossy().into_owned())
}

/// Relies on `Path::join`, on Unix.
#[verifier::external_body]
pub(crate) fn join(base: &str, tail: &str) -> (r: String)
    ensures
        r@ == joined(base@, tail@),
{
    std::path::Path::new(base).join(tail).to_string_lossy().into_owned()
}

} // verus!
