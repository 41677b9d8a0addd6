//! The base name of a native binary: what the import attribute names it by.

use vstd::prelude::*;
use crate::text::{starts_with, str_eq};

verus! {

/// What `Path::file_name` gives for a path, as a string.
pub uninterp spec fn file_name_of(p: Seq<char>) -> Option<Seq<char>>;

/// What `Path::file_stem` gives for a path, as a string.
pub uninterp spec fn file_stem_of(p: Seq<char>) -> Option<Seq<char>>;

/// What `Path::extension` gives for a path, as a string.
pub uninterp spec fn extension_of(p: Seq<char>) -> Option<Seq<char>>;

/// Relies on std's `Path::file_name`, read back as UTF-8: a function of the
/// path's text.
#[verifier::external_body]
pub(crate) fn file_name(p: &str) -> (r: Option<String>)
    ensures
        match r {
            Some(n) => file_name_of(p@) == Some(n@),
            None => file_name_of(p@) is None,
        },
{
    std::path::Path::new(p).file_name().and_then(|n| n.to_str()).map(|n| n.to_string())
}

/// Relies on std's `Path::file_stem`, read back as UTF-8: a function of the
/// path's text.
#[verifier::external_body]
pub(crate) fn file_stem(p: &str) -> (r: Option<String>)
    ensures
        match r {
            Some(n) => file_stem_of(p@) == Some(n@),
            None => file_stem_of(p@) is None,
        },
{
    std::path::Path::new(p).file_stem().and_then(|n| n.to_str()).map(|n| n.to_string())
}

/// Relies on std's `Path::extension`, read back as UTF-8: a function of the
/// path's text.
#[verifier::external_body]
pub(crate) fn extension(p: &str) -> (r: Option<String>)
    ensures
        match r {
            Some(n) => extension_of(p@) == Some(n@),
            None => extension_of(p@) is None,
        },
{
    std::path::Path::new(p).extension().and_then(|n| n.to_str()).map(|n| n.to_string())
}

/// The base name of a binary from its file stem and extension: a shared
/// object `libNAME.so` is `NAME`, anything else is its stem.
pub open spec fn base_name_from(stem: Seq<char>, ext: Option<Seq<char>>) -> Seq<char> {
    if stem.len() >= 3 && stem.take(3) == "lib"@ && ext == Some("so"@) {
        stem.skip(3)
    } else {
        stem
    }
}

pub fn base_name_of_parts(stem: &str, ext: &Option<String>) -> (r: String)
    ensures
        r@ == base_name_from(
            stem@,
            match ext {
                Some(e) => Some(e@),
                None => None,
            },
        ),
{
    let is_so = match ext {
        Some(e) => str_eq(e.as_str(), "so"),
        None => false,
    };
    if is_so && starts_with(stem, "lib") {
        proof {
            reveal_strlit("lib");
        }
        let n = stem.unicode_len();
        String::from_str(stem.substring_char(3, n))
    } else {
        proof {
            if is_so && stem@.len() >= 3 && stem@.take(3) == "lib"@ {
                assert(false);
            }
        }
        String::from_str(stem)
    }
}

/// The base name of the binary at a path; `None` when the path names no
/// file.
pub fn bin_base_name(path: &str) -> (r: Option<String>)
    ensures
        match file_stem_of(path@) {
            Some(stem) => r is Some && r->Some_0@ == base_name_from(stem, extension_of(path@)),
            None => r is None,
        },
{
    match file_stem(path) {
        Some(stem) => {
            let ext = extension(path);
            Some(base_name_of_parts(stem.as_str(), &ext))
        },
        None => None,
    }
}

} // verus!
