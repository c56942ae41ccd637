//! The three file dialogs of the editor, as the values that describe them.

use crate::image::{image_extension_list, image_extensions};
use crate::save::SaveTarget;
use crate::text::strs_view;
use vstd::prelude::*;

verus! {

/// A file dialog: its title, one filter with a name and the extensions it
/// lets through, and, for a save dialog, the file name and the directory
/// that it starts with.
#[derive(Clone, Debug, PartialEq, Eq)]
pub struct Dialog {
    pub title: &'static str,
    pub filter_name: &'static str,
    pub extensions: Vec<&'static str>,
    pub file_name: Option<String>,
    pub directory: Option<String>,
}

/// The one extension of layout documents.
pub open spec fn document_extension_list() -> Seq<Seq<char>> {
    seq!["mcgf"@]
}

/// The dialog that picks an image.
pub fn image_dialog() -> (dialog: Dialog)
    ensures
        dialog.title@ == "Select a File"@,
        dialog.filter_name@ == "Image Files"@,
        strs_view(dialog.extensions@) == image_extension_list(),
        dialog.file_name is None,
        dialog.directory is None,
{
    Dialog {
        title: "Select a File",
        filter_name: "Image Files",
        extensions: image_extensions(),
        file_name: None,
        directory: None,
    }
}

/// The dialog that picks a layout document to load.
pub fn load_dialog() -> (dialog: Dialog)
    ensures
        dialog.title@ == "Select a File"@,
        dialog.filter_name@ == "Minecraft GUI Files"@,
        strs_view(dialog.extensions@) == document_extension_list(),
        dialog.file_name is None,
        dialog.directory is None,
{
    let extensions = vec!["mcgf"];
    assert(strs_view(extensions@) =~= document_extension_list());
    Dialog {
        title: "Select a File",
        filter_name: "Minecraft GUI Files",
        extensions,
        file_name: None,
        directory: None,
    }
}

/// The dialog that asks where to save a layout document, starting at
/// `target`.
pub fn save_dialog(target: SaveTarget) -> (dialog: Dialog)
    ensures
        dialog.title@ == "Save GUI"@,
        dialog.filter_name@ == "Minecraft GUI Files"@,
        strs_view(dialog.extensions@) == document_extension_list(),
        dialog.file_name == Some(target.file_name),
        dialog.directory == target.directory,
{
    let extensions = vec!["mcgf"];
    assert(strs_view(extensions@) =~= document_extension_list());
    Dialog {
        title: "Save GUI",
        filter_name: "Minecraft GUI Files",
        extensions,
        file_name: Some(target.file_name),
        directory: target.directory,
    }
}

} // verus!
