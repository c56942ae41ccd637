//! Opening an image: from the chosen file's name to its MIME type, and from
//! its bytes to a data URI.

use crate::notify::{Notification, NotificationView, SelectedImage, SelectedImageView};
use crate::paths::{file_name_of, path_file_name};
use crate::text::{chars_of, option_view, string_of, strs_view};
use base64::prelude::BASE64_STANDARD;
use base64::Engine;
use vstd::prelude::*;
use vstd::string::StringExecFns;

verus! {

/// The index of the last `.` in `name`, or -1 where it has none.
pub open spec fn last_dot(name: Seq<char>) -> int
    decreases name.len(),
{
    if name.len() == 0 {
        -1
    } else if name.last() == '.' {
        name.len() - 1
    } else {
        last_dot(name.drop_last())
    }
}

/// The extension of a file name: what follows its last `.`, unless it has
/// none or its only `.` is its first character.
pub open spec fn extension_of(name: Seq<char>) -> Option<Seq<char>> {
    let dot = last_dot(name);
    if dot > 0 {
        Some(name.skip(dot + 1))
    } else {
        None
    }
}

/// The MIME type of an image file with the extension `ext`, for the
/// extensions that are taken for images.
pub open spec fn mime_of(ext: Seq<char>) -> Option<Seq<char>> {
    if ext == "png"@ {
        Some("image/png"@)
    } else if ext == "apng"@ {
        Some("image/apng"@)
    } else if ext == "avif"@ {
        Some("image/avif"@)
    } else if ext == "webp"@ {
        Some("image/webp"@)
    } else if ext == "jpg"@ || ext == "jpeg"@ || ext == "jfif"@ || ext == "pjpeg"@ || ext
        == "pjp"@ {
        Some("image/jpeg"@)
    } else {
        None
    }
}

/// The extensions that the image dialog offers.
pub open spec fn image_extension_list() -> Seq<Seq<char>> {
    seq![
        "png"@,
        "apng"@,
        "jpg"@,
        "jpeg"@,
        "jfif"@,
        "pjpeg"@,
        "pjp"@,
        "avif"@,
        "webp"@,
    ]
}

/// The standard base64 text of `bytes`, with padding: what
/// `base64::prelude::BASE64_STANDARD` encodes them to.
pub uninterp spec fn base64_standard(bytes: Seq<u8>) -> Seq<char>;

/// What a data URI of the MIME type `mime` starts with, up to where the
/// base64 text begins.
pub open spec fn data_uri_head_of(mime: Seq<char>) -> Seq<char> {
    "data:"@ + mime + ";base64,"@
}

/// The data URI of `bytes` under the MIME type `mime`.
pub open spec fn data_uri_of(mime: Seq<char>, bytes: Seq<u8>) -> Seq<char> {
    data_uri_head_of(mime) + base64_standard(bytes)
}

/// What is read to open an image: the file's name and its MIME type.
#[derive(Clone, Debug, PartialEq, Eq)]
pub struct ImageRequest {
    pub file_name: String,
    pub mime_type: &'static str,
}

/// The request that a file name gives rise to: none where the name is
/// missing, has no extension, or has one that is not an image's.
pub open spec fn request_of(file_name: Option<Seq<char>>) -> Option<(Seq<char>, Seq<char>)> {
    match file_name {
        None => None,
        Some(name) => match extension_of(name) {
            None => None,
            Some(ext) => match mime_of(ext) {
                None => None,
                Some(mime) => Some((name, mime)),
            },
        },
    }
}

impl ImageRequest {
    /// The file name and the MIME type of the request.
    pub open spec fn parts(self) -> (Seq<char>, Seq<char>) {
        (self.file_name@, self.mime_type@)
    }
}

/// The parts of an optional request.
pub open spec fn request_view(request: Option<ImageRequest>) -> Option<(Seq<char>, Seq<char>)> {
    match request {
        Some(r) => Some(r.parts()),
        None => None,
    }
}

/// What opening an image does next.
#[derive(Clone, Debug, PartialEq, Eq)]
pub enum ImageStep {
    /// Nothing is read: the front end is told at once.
    Notify(Notification),
    /// The file at `path` is read, and its bytes decide the notification.
    Read { path: String, request: ImageRequest },
}

/// `Engine::encode_string` of `BASE64_STANDARD` appends the base64 text of
/// `bytes` to `out` and leaves what `out` held in front of it.
#[verifier::external_body]
fn append_base64(bytes: &Vec<u8>, out: &mut String)
    ensures
        final(out)@ == old(out)@ + base64_standard(bytes@),
{
    BASE64_STANDARD.encode_string(bytes, out);
}

/// The extensions that the image dialog offers, in the order it shows them.
pub fn image_extensions() -> (list: Vec<&'static str>)
    ensures
        strs_view(list@) == image_extension_list(),
{
    let list = vec!["png", "apng", "jpg", "jpeg", "jfif", "pjpeg", "pjp", "avif", "webp"];
    assert(strs_view(list@) =~= image_extension_list());
    list
}

/// The extension of the file name `name`.
pub fn extension(name: &str) -> (ext: Option<String>)
    ensures
        option_view(ext) == extension_of(name@),
{
    let chars = chars_of(name);
    let mut i: usize = chars.len();
    assert(chars@.take(i as int) == chars@);
    while i > 0 && chars[i - 1] != '.'
        invariant
            i <= chars.len(),
            chars@ == name@,
            last_dot(chars@) == last_dot(chars@.take(i as int)),
        decreases i,
    {
        assert(chars@.take(i as int).drop_last() == chars@.take(i - 1));
        i -= 1;
    }
    proof {
        if i == 0 {
            assert(chars@.take(0).len() == 0);
        }
    }
    if i > 1 {
        let ext = string_of(&chars, i, chars.len());
        assert(chars@.skip(i as int) == chars@.subrange(i as int, chars.len() as int));
        Some(ext)
    } else {
        None
    }
}

/// The MIME type of an image file with the extension `ext`.
pub fn mime_type(ext: &str) -> (mime: Option<&'static str>)
    ensures
        match mime {
            Some(m) => mime_of(ext@) == Some(m@),
            None => mime_of(ext@) is None,
        },
{
    if ext.eq("png") {
        Some("image/png")
    } else if ext.eq("apng") {
        Some("image/apng")
    } else if ext.eq("avif") {
        Some("image/avif")
    } else if ext.eq("webp") {
        Some("image/webp")
    } else if ext.eq("jpg") || ext.eq("jpeg") || ext.eq("jfif") || ext.eq("pjpeg") || ext.eq(
        "pjp",
    ) {
        Some("image/jpeg")
    } else {
        None
    }
}

/// An extension has a MIME type exactly when the image dialog offers it.
pub proof fn offered_extensions_have_mime_types(ext: Seq<char>)
    ensures
        image_extension_list().contains(ext) <==> mime_of(ext) is Some,
{
    let list = image_extension_list();
    if mime_of(ext) is Some {
        let i = if ext == "png"@ {
            0int
        } else if ext == "apng"@ {
            1
        } else if ext == "jpg"@ {
            2
        } else if ext == "jpeg"@ {
            3
        } else if ext == "jfif"@ {
            4
        } else if ext == "pjpeg"@ {
            5
        } else if ext == "pjp"@ {
            6
        } else if ext == "avif"@ {
            7
        } else {
            8
        };
        assert(list[i] == ext);
    }
}

/// A file whose name has no extension, or one that the image dialog does not
/// offer, gives rise to no request: opening it ends in the empty
/// notification.
pub proof fn other_extensions_give_no_request(file_name: Seq<char>)
    requires
        extension_of(file_name) matches Some(ext) ==> !image_extension_list().contains(ext),
    ensures
        request_of(Some(file_name)) is None,
{
    match extension_of(file_name) {
        Some(ext) => offered_extensions_have_mime_types(ext),
        None => {},
    }
}

/// The request for the file named `file_name`, where that is an image's name.
pub fn image_request(file_name: Option<String>) -> (request: Option<ImageRequest>)
    ensures
        request_view(request) == request_of(option_view(file_name)),
{
    match file_name {
        None => None,
        Some(name) => match extension(name.as_str()) {
            None => None,
            Some(ext) => match mime_type(ext.as_str()) {
                None => None,
                Some(mime) => Some(ImageRequest { file_name: name, mime_type: mime }),
            },
        },
    }
}

/// The first step of opening an image, for a dialog that was dismissed
/// (`selection` is `None`) or gave the path `selection`, whose file name is
/// `file_name`. Whatever cannot be used ends in the empty notification.
pub fn image_step(selection: Option<String>, file_name: Option<String>) -> (step: ImageStep)
    ensures
        match step {
            ImageStep::Notify(n) => {
                &&& n@ == NotificationView::FileSelected(None)
                &&& selection is None || request_of(option_view(file_name)) is None
            },
            ImageStep::Read { path, request } => {
                &&& selection == Some(path)
                &&& request_of(option_view(file_name)) == Some(request.parts())
            },
        },
{
    match selection {
        None => ImageStep::Notify(Notification::FileSelected(None)),
        Some(path) => match image_request(file_name) {
            None => ImageStep::Notify(Notification::FileSelected(None)),
            Some(request) => ImageStep::Read { path, request },
        },
    }
}

/// The first step of opening an image, for a dialog that was dismissed or
/// gave the path `selection`. The file at the path is read where the file
/// name of the path is an image's name; everything else ends in the empty
/// notification.
pub fn open_image(selection: Option<String>) -> (step: ImageStep)
    ensures
        match step {
            ImageStep::Notify(n) => {
                &&& n@ == NotificationView::FileSelected(None)
                &&& selection matches Some(p) ==> request_of(file_name_of(p@)) is None
            },
            ImageStep::Read { path, request } => {
                &&& selection == Some(path)
                &&& request_of(file_name_of(path@)) == Some(request.parts())
            },
        },
{
    let file_name = match &selection {
        Some(path) => path_file_name(path.as_str()),
        None => None,
    };
    image_step(selection, file_name)
}

/// What a data URI of the MIME type `mime` starts with, up to where the
/// base64 text begins.
pub fn data_uri_head(mime: &str) -> (head: String)
    ensures
        head@ == data_uri_head_of(mime@),
{
    let mut head = String::new();
    head.append("data:");
    head.append(mime);
    head.append(";base64,");
    assert(head@ =~= data_uri_head_of(mime@));
    head
}

/// The data URI of `bytes` under the MIME type `mime`.
pub fn data_uri(mime: &str, bytes: &Vec<u8>) -> (uri: String)
    ensures
        uri@ == data_uri_of(mime@, bytes@),
{
    let mut uri = data_uri_head(mime);
    append_base64(bytes, &mut uri);
    uri
}

/// The last step of opening an image: the notification for a read that gave
/// `contents`, or failed (`None`).
pub fn image_read(request: ImageRequest, contents: Option<Vec<u8>>) -> (n: Notification)
    ensures
        n@ == match contents {
            Some(bytes) => NotificationView::FileSelected(
                Some(
                    SelectedImageView {
                        file_name: request.file_name@,
                        data_uri: data_uri_of(request.mime_type@, bytes@),
                    },
                ),
            ),
            None => NotificationView::FileSelected(None),
        },
{
    match contents {
        None => Notification::FileSelected(None),
        Some(bytes) => {
            let uri = data_uri(request.mime_type, &bytes);
            Notification::FileSelected(
                Some(SelectedImage { file_name: request.file_name, data_uri: uri }),
            )
        },
    }
}

} // verus!
