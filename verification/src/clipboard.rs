use vstd::prelude::*;

verus! {

/// What the clipboard holds, as far as pasting is concerned.
#[derive(Clone, Copy, Debug, PartialEq, Eq, Structural)]
pub enum ClipboardDataType {
    File,
    String,
}

/// Decides what the clipboard holds: files, when the system clipboard lists
/// files or (on Linux) its text names existing files; otherwise text, unless
/// there is no text, which means that it holds the pixels of an image.
pub fn clipboard_data_type(has_file_list: bool, text_names_files: bool, text_is_empty: bool) -> (r:
    ClipboardDataType)
    ensures
        r == (if has_file_list || text_names_files || text_is_empty {
            ClipboardDataType::File
        } else {
            ClipboardDataType::String
        }),
{
    if has_file_list {
        return ClipboardDataType::File;
    }
    if text_names_files {
        return ClipboardDataType::File;
    }
    if text_is_empty {
        ClipboardDataType::File
    } else {
        ClipboardDataType::String
    }
}

/// The files to upload from the clipboard: those that it lists, or else the
/// image it holds (saved to a file), or none.
pub fn clipboard_files(listed: Vec<String>, image_files: Vec<String>) -> (r: Vec<String>)
    ensures
        listed@.len() > 0 ==> r@ == listed@,
        listed@.len() == 0 && image_files@.len() > 0 ==> r@ == image_files@,
        listed@.len() == 0 && image_files@.len() == 0 ==> r@.len() == 0,
{
    if !listed.is_empty() {
        return listed;
    }
    if !image_files.is_empty() {
        return image_files;
    }
    Vec::new()
}

} // verus!
