//! Loading a document: which dropped file is loaded, and what the front end
//! hears once the file was read and parsed, or could not be.

use crate::model::{LayoutDocument, LoadData, LoadDataView};
use crate::notify::{Notification, NotificationView};
use vstd::prelude::*;

verus! {

/// The path that a drop of files loads: the first one. The others are
/// ignored, and an empty drop loads nothing.
pub fn dropped_path(paths: &Vec<String>) -> (path: Option<&String>)
    ensures
        match path {
            Some(p) => paths.len() > 0 && *p == paths[0],
            None => paths.len() == 0,
        },
{
    if paths.len() < 1 {
        None
    } else {
        Some(&paths[0])
    }
}

/// What the front end hears of a load from `path`: the document and where
/// it came from, where the file was read and its text parsed to `contents`;
/// the description of the failure, where reading or parsing failed.
pub fn load_parsed(path: String, contents: Result<LayoutDocument, String>) -> (n: Notification)
    ensures
        n@ == match contents {
            Ok(d) => NotificationView::LoadSuccess(
                LoadDataView { last_loaded_location: Some(path@), data: d@ },
            ),
            Err(e) => NotificationView::LoadError(e@),
        },
{
    match contents {
        Ok(data) => Notification::LoadSuccess(LoadData { last_loaded_location: Some(path), data }),
        Err(e) => Notification::LoadError(e),
    }
}

} // verus!
