//! Where a low-resolution preview of an output video is written.
use vstd::prelude::*;

use crate::paths::{extension, file_stem, or_empty, path_extension, path_file_stem, path_with_file_name, with_file_name};
use crate::text::{append_str, chars_of, string_from_chars};

verus! {

/// The file name of the preview for `output`: `<stem>_preview.<extension>`
/// (each part empty where the path has none).
pub open spec fn preview_file_name(output: Seq<char>) -> Seq<char> {
    preview_name_of(path_file_stem(output), path_extension(output))
}

/// The preview's file name for a file with the given stem and extension:
/// `<stem>_preview.<extension>`, each part empty where there is none.
pub open spec fn preview_name_of(stem: Option<Seq<char>>, ext: Option<Seq<char>>) -> Seq<char> {
    or_empty(stem) + "_preview."@ + or_empty(ext)
}

/// The preview's file name for a file with the given stem and extension
/// (see [`preview_name_of`]).
pub fn preview_name(stem: Option<String>, ext: Option<String>) -> (r: String)
    ensures
        r@ == preview_name_of(
            match stem {
                Some(s) => Some(s@),
                None => None,
            },
            match ext {
                Some(e) => Some(e@),
                None => None,
            },
        ),
{
    let mut name: Vec<char> = Vec::new();
    if let Some(st) = stem {
        name = chars_of(st.as_str());
    }
    append_str(&mut name, "_preview.");
    if let Some(e) = ext {
        append_str(&mut name, e.as_str());
    }
    string_from_chars(&name)
}

/// Generate a preview path based on the output path: the same directory,
/// with the file named `<stem>_preview.<extension>`.
pub fn preview_path(output: &str) -> (r: String)
    ensures
        r@ == path_with_file_name(output@, preview_file_name(output@)),
{
    let stem = file_stem(output);
    let ext = extension(output);
    let name = preview_name(stem, ext);
    with_file_name(output, name.as_str())
}

} // verus!
