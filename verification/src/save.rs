//! Saving a document: where the save dialog starts, and what the front end
//! hears once the file was written or could not be.

use crate::format::document_text;
use crate::model::LayoutDocument;
use crate::notify::{Notification, NotificationView};
use crate::paths::{file_name_of, my_home, parent_of, path_file_name, path_parent};
use crate::text::option_view;
use crate::writer::serialize;
use vstd::prelude::*;
use vstd::string::StringExecFns;

verus! {

/// The file name proposed for a document whose root element is called
/// `name`.
pub open spec fn default_file_name(name: Seq<char>) -> Seq<char> {
    if name.len() > 0 {
        name + ".mcgf"@
    } else {
        "unnamed.mcgf"@
    }
}

/// Where a save dialog starts: a directory, unless the choice is left to the
/// dialog, and a file name.
#[derive(Clone, Debug, PartialEq, Eq)]
pub struct SaveTarget {
    pub directory: Option<String>,
    pub file_name: String,
}

/// The value of a [`SaveTarget`].
pub struct SaveTargetView {
    pub directory: Option<Seq<char>>,
    pub file_name: Seq<char>,
}

impl View for SaveTarget {
    type V = SaveTargetView;

    open spec fn view(&self) -> SaveTargetView {
        SaveTargetView { directory: option_view(self.directory), file_name: self.file_name@ }
    }
}

/// The target for a document that was saved or loaded before at `location`,
/// or never (`location` is empty). `name` is the name of its root element,
/// `home` the user's home directory where it is known, `existing` the file
/// name component of `location` where it has one, and `parent` what is left
/// of `location` without that component.
pub open spec fn save_target_of(
    location: Seq<char>,
    name: Seq<char>,
    home: Option<Seq<char>>,
    existing: Option<Seq<char>>,
    parent: Seq<char>,
) -> SaveTargetView {
    if location.len() == 0 {
        SaveTargetView { directory: home, file_name: default_file_name(name) }
    } else {
        SaveTargetView {
            directory: Some(parent),
            file_name: match existing {
                Some(file_name) => file_name,
                None => default_file_name(name),
            },
        }
    }
}

/// The file name proposed for a document whose root element is called
/// `name`: the name with `.mcgf` behind it, or `unnamed.mcgf` for no name.
pub fn proposed_file_name(name: &str) -> (file_name: String)
    ensures
        file_name@ == default_file_name(name@),
{
    if name.is_empty() {
        String::from_str("unnamed.mcgf")
    } else {
        String::from_str(name).concat(".mcgf")
    }
}

/// The target of a save, from the parts that the platform gave: see
/// [`save_target_of`].
pub fn save_target_from(
    last_loaded_location: &str,
    name: &str,
    home: Option<String>,
    existing: Option<String>,
    parent: String,
) -> (target: SaveTarget)
    ensures
        target@ == save_target_of(
            last_loaded_location@,
            name@,
            option_view(home),
            option_view(existing),
            parent@,
        ),
{
    if last_loaded_location.is_empty() {
        SaveTarget { directory: home, file_name: proposed_file_name(name) }
    } else {
        let file_name = match existing {
            Some(file_name) => file_name,
            None => proposed_file_name(name),
        };
        SaveTarget { directory: Some(parent), file_name }
    }
}

/// The user's home directory, where the platform can tell it.
pub fn home_directory() -> (home: Option<String>) {
    home_of(my_home())
}

/// The home directory that a lookup found: the directory where the lookup
/// gave one, none where it gave none or failed, whatever the failure.
pub fn home_of<E>(found: Result<Option<String>, E>) -> (home: Option<String>)
    ensures
        home == match found {
            Ok(directory) => directory,
            Err(_) => None,
        },
{
    match found {
        Ok(directory) => directory,
        Err(_) => None,
    }
}

/// The target of a save of `document`, last saved or loaded at
/// `last_loaded_location`. A document that has no location yet starts in the
/// home directory, where the platform can tell it, under its proposed name;
/// one that has a location starts in the parent of that location, under the
/// file name it has there, or under its proposed name where the location
/// has no file name.
pub fn save_target(last_loaded_location: &str, document: &LayoutDocument) -> (target: SaveTarget)
    ensures
        last_loaded_location@.len() == 0 ==> target.file_name@ == default_file_name(
            document.base_element.name@,
        ),
        last_loaded_location@.len() > 0 ==> target@ == save_target_of(
            last_loaded_location@,
            document.base_element.name@,
            None,
            file_name_of(last_loaded_location@),
            parent_of(last_loaded_location@),
        ),
{
    let name = document.base_element.name.as_str();
    if last_loaded_location.is_empty() {
        save_target_from(last_loaded_location, name, home_directory(), None, String::new())
    } else {
        let existing = path_file_name(last_loaded_location);
        let parent = path_parent(last_loaded_location);
        save_target_from(last_loaded_location, name, None, existing, parent)
    }
}

/// A file to write: where, and what.
#[derive(Clone, Debug, PartialEq, Eq)]
pub struct WriteRequest {
    pub path: String,
    pub contents: String,
}

/// What a save writes once the dialog is closed: nothing where the dialog
/// was dismissed, the text of `document` to the path that was chosen
/// otherwise.
pub fn save_chosen(chosen: Option<String>, document: &LayoutDocument) -> (request: Option<
    WriteRequest,
>)
    ensures
        match request {
            Some(w) => chosen == Some(w.path) && w.contents@ == document_text(document@),
            None => chosen is None,
        },
{
    match chosen {
        Some(path) => Some(WriteRequest { path, contents: serialize(document) }),
        None => None,
    }
}

/// What the front end hears of a save to `path`: the new location where the
/// file was written, the description of the failure where it was not.
pub fn save_written(path: String, outcome: Result<(), String>) -> (n: Notification)
    ensures
        n@ == match outcome {
            Ok(_) => NotificationView::UpdateLastLoaded(path@),
            Err(e) => NotificationView::SaveError(e@),
        },
{
    match outcome {
        Ok(_) => Notification::UpdateLastLoaded(path),
        Err(e) => Notification::SaveError(e),
    }
}

} // verus!
