//! What a workflow tells the front end: one of five named events, each with
//! its payload.

use crate::model::{LoadData, LoadDataView};
use vstd::prelude::*;

verus! {

/// An image that was opened: the name of its file and its bytes as a data URI.
#[derive(Clone, Debug, PartialEq, Eq)]
pub struct SelectedImage {
    pub file_name: String,
    pub data_uri: String,
}

/// The value of a [`SelectedImage`].
pub struct SelectedImageView {
    pub file_name: Seq<char>,
    pub data_uri: Seq<char>,
}

impl View for SelectedImage {
    type V = SelectedImageView;

    open spec fn view(&self) -> SelectedImageView {
        SelectedImageView { file_name: self.file_name@, data_uri: self.data_uri@ }
    }
}

/// A notification for the front end.
#[derive(Clone, Debug, PartialEq, Eq)]
pub enum Notification {
    /// The outcome of opening an image: the image, or nothing where none
    /// was chosen or the chosen file could not be used.
    FileSelected(Option<SelectedImage>),
    /// A save failed, with the description of the failure.
    SaveError(String),
    /// A save succeeded, with the place the document now lives at.
    UpdateLastLoaded(String),
    /// A load failed, with the description of the failure.
    LoadError(String),
    /// A load succeeded.
    LoadSuccess(LoadData),
}

/// The value of a [`Notification`].
pub enum NotificationView {
    FileSelected(Option<SelectedImageView>),
    SaveError(Seq<char>),
    UpdateLastLoaded(Seq<char>),
    LoadError(Seq<char>),
    LoadSuccess(LoadDataView),
}

impl View for Notification {
    type V = NotificationView;

    open spec fn view(&self) -> NotificationView {
        match *self {
            Notification::FileSelected(Some(image)) => NotificationView::FileSelected(Some(image@)),
            Notification::FileSelected(None) => NotificationView::FileSelected(None),
            Notification::SaveError(e) => NotificationView::SaveError(e@),
            Notification::UpdateLastLoaded(p) => NotificationView::UpdateLastLoaded(p@),
            Notification::LoadError(e) => NotificationView::LoadError(e@),
            Notification::LoadSuccess(d) => NotificationView::LoadSuccess(d@),
        }
    }
}

/// The name of the event that carries `n`.
pub open spec fn event_name_of(n: NotificationView) -> Seq<char> {
    match n {
        NotificationView::FileSelected(_) => "file_selected"@,
        NotificationView::SaveError(_) => "save-error"@,
        NotificationView::UpdateLastLoaded(_) => "update-last-loaded"@,
        NotificationView::LoadError(_) => "load-error"@,
        NotificationView::LoadSuccess(_) => "load-success"@,
    }
}

impl Notification {
    /// The name under which the front end listens for this notification.
    pub fn event_name(&self) -> (name: &'static str)
        ensures
            name@ == event_name_of(self@),
    {
        match self {
            Notification::FileSelected(_) => "file_selected",
            Notification::SaveError(_) => "save-error",
            Notification::UpdateLastLoaded(_) => "update-last-loaded",
            Notification::LoadError(_) => "load-error",
            Notification::LoadSuccess(_) => "load-success",
        }
    }
}

} // verus!
