use vstd::prelude::*;

use crate::text::{ascii_lower, normalize_for_matching, slash_normalized, str_eq, to_ascii_lower};

verus! {

/// What `Path::extension` gives for a path: the part of its file name after
/// the last dot, if there is one.
pub uninterp spec fn extension_of(path: Seq<char>) -> Option<Seq<char>>;

/// What `Path::file_name` gives for a path: its last normal component.
pub uninterp spec fn file_name_of(path: Seq<char>) -> Option<Seq<char>>;

/// What `Path::strip_prefix` gives for `path` with prefix `root`, compared
/// component by component.
pub uninterp spec fn relative_to(root: Seq<char>, path: Seq<char>) -> Option<Seq<char>>;

/// Relies on `Path::extension`.
#[verifier::external_body]
pub(crate) fn path_extension(path: &str) -> (r: Option<String>)
    ensures
        r matches Some(e) ==> extension_of(path@) == Some(e@),
        r is None ==> extension_of(path@) is None,
{
    std::path::Path::new(path).extension().map(|e| e.to_string_lossy().into_owned())
}

/// Relies on `Path::file_name`.
#[verifier::external_body]
pub(crate) fn path_file_name(path: &str) -> (r: Option<String>)
    ensures
        r matches Some(f) ==> file_name_of(path@) == Some(f@),
        r is None ==> file_name_of(path@) is None,
{
    std::path::Path::new(path).file_name().map(|f| f.to_string_lossy().into_owned())
}

/// Relies on `Path::strip_prefix`: the rest of `path` below `root`, or
/// nothing where `root` is not a prefix of it.
#[verifier::external_body]
pub(crate) fn path_relative_to(root: &str, path: &str) -> (r: Option<String>)
    ensures
        r matches Some(p) ==> relative_to(root@, path@) == Some(p@),
        r is None ==> relative_to(root@, path@) is None,
{
    std::path::Path::new(path).strip_prefix(root).ok().map(|p| p.to_string_lossy().into_owned())
}

/// `e` is one of the configured extensions.
pub open spec fn ext_listed(e: Seq<char>, exts: Seq<String>) -> bool {
    exists|i: int| 0 <= i < exts.len() && (#[trigger] exts[i])@ == e
}

/// A path is selected when it has an extension whose ASCII lowercase form is
/// configured.
pub open spec fn selected_by_ext(path: Seq<char>, exts: Seq<String>) -> bool {
    match extension_of(path) {
        Some(e) => ext_listed(ascii_lower(e), exts),
        None => false,
    }
}

/// The relative path of `path` below `root`, or `path` itself where `root` is
/// not its prefix.
pub open spec fn relative_or_self(root: Seq<char>, path: Seq<char>) -> Seq<char> {
    match relative_to(root, path) {
        Some(rel) => rel,
        None => path,
    }
}

/// The display path, given the relative path and the file name: the file name
/// (or the path) where nothing is left below the root, else the relative path
/// in slash-separated form.
pub open spec fn display_of(path: Seq<char>, rel: Seq<char>, name: Option<Seq<char>>) -> Seq<char> {
    if rel.len() == 0 {
        match name {
            Some(n) => n,
            None => path,
        }
    } else {
        slash_normalized(rel)
    }
}

/// The display path of `path` under `root`.
pub open spec fn display_path_of(root: Seq<char>, path: Seq<char>) -> Seq<char> {
    display_of(path, relative_or_self(root, path), file_name_of(path))
}

/// Whether the extension `ext`, in ASCII lowercase, is configured.
pub fn ext_in_set(ext: &str, exts: &Vec<String>) -> (r: bool)
    ensures
        r == ext_listed(ascii_lower(ext@), exts@),
{
    let lower = to_ascii_lower(ext);
    let mut i: usize = 0;
    while i < exts.len()
        invariant
            lower@ == ascii_lower(ext@),
            i <= exts@.len(),
            forall|j: int| 0 <= j < i ==> (#[trigger] exts@[j])@ != lower@,
        decreases exts@.len() - i,
    {
        if str_eq(exts[i].as_str(), lower.as_str()) {
            assert((exts@[i as int])@ == lower@);
            return true;
        }
        i = i + 1;
    }
    false
}

/// Case-insensitive extension match: the path has an extension, and its ASCII
/// lowercase form is in `exts`.
pub fn matches_ext(path: &str, exts: &Vec<String>) -> (r: bool)
    ensures
        r == selected_by_ext(path@, exts@),
{
    match path_extension(path) {
        Some(e) => ext_in_set(e.as_str(), exts),
        None => false,
    }
}

/// The display path from its parts: `rel` is the path below the root (if the
/// root is a prefix of it), `name` its file name.
pub fn display_from_parts(path: &str, rel: Option<&str>, name: Option<&str>) -> (r: String)
    ensures
        r@ == display_of(
            path@,
            match rel {
                Some(p) => p@,
                None => path@,
            },
            match name {
                Some(n) => Some(n@),
                None => None,
            },
        ),
{
    let rel_path = match rel {
        Some(p) => p,
        None => path,
    };
    if rel_path.unicode_len() == 0 {
        match name {
            Some(n) => n.to_owned(),
            None => path.to_owned(),
        }
    } else {
        normalize_for_matching(rel_path)
    }
}

/// The slash-separated display path of `path` relative to `root`; a root that
/// is itself the file gives the file's name. It depends on `root` and `path`
/// alone, not on the working directory.
pub fn make_display_path(root: &str, path: &str) -> (r: String)
    ensures
        r@ == display_path_of(root@, path@),
{
    let rel = path_relative_to(root, path);
    let name = path_file_name(path);
    let rel_ref: Option<&str> = match &rel {
        Some(p) => Some(p.as_str()),
        None => None,
    };
    let name_ref: Option<&str> = match &name {
        Some(n) => Some(n.as_str()),
        None => None,
    };
    display_from_parts(path, rel_ref, name_ref)
}

/// Extension matching ignores ASCII case: two extensions that agree up to
/// ASCII case are both selected, or neither.
pub proof fn ext_match_ignores_case(e1: Seq<char>, e2: Seq<char>, exts: Seq<String>)
    requires
        ascii_lower(e1) == ascii_lower(e2),
    ensures
        ext_listed(ascii_lower(e1), exts) == ext_listed(ascii_lower(e2), exts),
{
}

/// An extension is selected in any ASCII case when its lowercase form is
/// configured.
pub proof fn lowercase_entry_matches_any_case(e: Seq<char>, exts: Seq<String>, i: int)
    requires
        0 <= i < exts.len(),
        exts[i]@ == ascii_lower(e),
    ensures
        ext_listed(ascii_lower(e), exts),
{
}

} // verus!
