//! File-system paths as text, and the names of the files that a download
//! leaves on disk.
//!
//! A path is held as a `String`. Taking a path apart and putting it together
//! again is left to `std::path`, so that the names computed here are the ones
//! the platform's own path rules give. Those calls are the only unverified
//! code in this module. Each of them is a function of the text it is given,
//! under the path syntax of the platform that the crate is built for; each
//! result is given a name, and the functions below are specified over those
//! names.

use crate::text::{decimal, push_decimal};
use vstd::prelude::*;
use vstd::string::*;

verus! {

/// What `std::path::Path::with_extension` returns for the path `path` and the
/// extension `extension`, as text.
pub uninterp spec fn path_with_extension(path: Seq<char>, extension: Seq<char>) -> Seq<char>;

/// What `std::path::Path::file_name` returns for `path`, as text.
pub uninterp spec fn path_file_name(path: Seq<char>) -> Option<Seq<char>>;

/// What `std::path::Path::with_file_name` returns for the path `path` and the
/// file name `name`, as text.
pub uninterp spec fn path_with_file_name(path: Seq<char>, name: Seq<char>) -> Seq<char>;

/// What `std::path::Path::file_stem` returns for `path`, as text.
pub uninterp spec fn path_file_stem(path: Seq<char>) -> Option<Seq<char>>;

/// What `std::path::Path::parent` returns for `path`, as text.
pub uninterp spec fn path_parent(path: Seq<char>) -> Option<Seq<char>>;

/// Whether `c` separates the components of a path on some platform.
pub open spec fn is_separator(c: char) -> bool {
    c == '/' || c == '\\'
}

/// Whether `s` holds a path separator.
pub open spec fn has_separator(s: Seq<char>) -> bool {
    exists|i: int| 0 <= i < s.len() && is_separator(#[trigger] s[i])
}

/// Calls `std::path::Path::with_extension` on `path`, read as a path, and
/// hands the result back as text. The contract only names the result; it
/// leaves out the extensions on which the std function panics, those that hold
/// a path separator.
#[verifier::external_body]
pub(crate) fn with_extension(path: &str, extension: &str) -> (r: String)
    requires
        !has_separator(extension@),
    ensures
        r@ == path_with_extension(path@, extension@),
{
    std::path::Path::new(path).with_extension(extension).to_string_lossy().into_owned()
}

/// Calls `std::path::Path::file_name` on `path`, read as a path, and hands the
/// result back as text. The contract only names the result.
#[verifier::external_body]
pub(crate) fn file_name(path: &str) -> (r: Option<String>)
    ensures
        match r {
            Some(name) => path_file_name(path@) == Some(name@),
            None => path_file_name(path@) is None,
        },
{
    std::path::Path::new(path).file_name().map(|name| name.to_string_lossy().into_owned())
}

/// Calls `std::path::Path::with_file_name` on `path`, read as a path, and
/// hands the result back as text. The contract only names the result.
#[verifier::external_body]
pub(crate) fn with_file_name(path: &str, name: &str) -> (r: String)
    ensures
        r@ == path_with_file_name(path@, name@),
{
    std::path::Path::new(path).with_file_name(name).to_string_lossy().into_owned()
}

/// Calls `std::path::Path::file_stem` on `path`, read as a path, and hands the
/// result back as text. The contract only names the result.
#[verifier::external_body]
pub(crate) fn file_stem(path: &str) -> (r: Option<String>)
    ensures
        match r {
            Some(stem) => path_file_stem(path@) == Some(stem@),
            None => path_file_stem(path@) is None,
        },
{
    std::path::Path::new(path).file_stem().map(|stem| stem.to_string_lossy().into_owned())
}

/// Calls `std::path::Path::parent` on `path`, read as a path, and hands the
/// result back as text. The contract only names the result.
#[verifier::external_body]
pub(crate) fn parent(path: &str) -> (r: Option<String>)
    ensures
        match r {
            Some(dir) => path_parent(path@) == Some(dir@),
            None => path_parent(path@) is None,
        },
{
    std::path::Path::new(path).parent().map(|dir| dir.to_string_lossy().into_owned())
}

/// The extension of the part file of chunk `index`: `part` and the index in
/// decimal.
pub open spec fn part_extension(index: nat) -> Seq<char> {
    "part"@ + decimal(index)
}

/// Where the part file of chunk `index` lies for a download to `output`:
/// `output` with its extension replaced by `part<index>`.
pub open spec fn part_file(output: Seq<char>, index: nat) -> Seq<char> {
    path_with_extension(output, part_extension(index))
}

/// The file name that a completion marker gets when the part path has no file
/// name of its own.
pub open spec fn fallback_part_name() -> Seq<char> {
    "part"@
}

/// Where the completion marker of the part file `part` lies: beside it, under
/// the part file's name with `.done` appended.
pub open spec fn done_marker(part: Seq<char>) -> Seq<char> {
    let name = match path_file_name(part) {
        Some(name) => name,
        None => fallback_part_name(),
    };
    path_with_file_name(part, name + ".done"@)
}

/// Where a stream copy is written before it is complete: `output` with its
/// extension replaced by `part`.
pub open spec fn temp_output(output: Seq<char>) -> Seq<char> {
    path_with_extension(output, "part"@)
}

/// A decimal numeral holds no path separator.
proof fn lemma_decimal_has_no_separator(n: nat)
    ensures
        !has_separator(decimal(n)),
    decreases n,
{
    if n >= 10 {
        lemma_decimal_has_no_separator(n / 10);
        let head = decimal(n / 10);
        assert forall|i: int| 0 <= i < decimal(n).len() implies !is_separator(
            #[trigger] decimal(n)[i],
        ) by {
            if i < head.len() {
                assert(decimal(n)[i] == head[i]);
            }
        }
    }
}

/// The path of the part file of chunk `index` for a download to `output`.
pub fn part_file_path(output: &str, index: usize) -> (r: String)
    ensures
        r@ == part_file(output@, index as nat),
{
    let mut extension = String::from_str("part");
    push_decimal(&mut extension, index as u64);
    proof {
        reveal_strlit("part");
        lemma_decimal_has_no_separator(index as nat);
        let digits = decimal(index as nat);
        assert forall|i: int| 0 <= i < extension@.len() implies !is_separator(
            #[trigger] extension@[i],
        ) by {
            if i >= 4 {
                assert(extension@[i] == digits[i - 4]);
            }
        }
    }
    with_extension(output, extension.as_str())
}

/// The path of the completion marker that belongs to the part file `part`.
pub fn done_marker_path(part: &str) -> (r: String)
    ensures
        r@ == done_marker(part@),
{
    let mut name = match file_name(part) {
        Some(name) => name,
        None => String::from_str("part"),
    };
    name.append(".done");
    with_file_name(part, name.as_str())
}

/// The path that a stream copy to `output` is written to until it is
/// complete.
pub fn temp_output_path(output: &str) -> (r: String)
    ensures
        r@ == temp_output(output@),
{
    proof {
        reveal_strlit("part");
    }
    with_extension(output, "part")
}

} // verus!
