use mcgf::dialog::{image_dialog, load_dialog, save_dialog};
use mcgf::image::{
    data_uri, data_uri_head, extension, image_extensions, image_read, image_request, image_step, mime_type,
    open_image, ImageRequest, ImageStep,
};
use mcgf::notify::{Notification, SelectedImage};
use mcgf::save::SaveTarget;

#[test]
fn every_offered_extension_has_its_mime_type() {
    assert_eq!(mime_type("png"), Some("image/png"));
    assert_eq!(mime_type("apng"), Some("image/apng"));
    assert_eq!(mime_type("avif"), Some("image/avif"));
    assert_eq!(mime_type("webp"), Some("image/webp"));
    assert_eq!(mime_type("jpg"), Some("image/jpeg"));
    assert_eq!(mime_type("jpeg"), Some("image/jpeg"));
    assert_eq!(mime_type("jfif"), Some("image/jpeg"));
    assert_eq!(mime_type("pjpeg"), Some("image/jpeg"));
    assert_eq!(mime_type("pjp"), Some("image/jpeg"));
    for ext in image_extensions() {
        assert!(mime_type(ext).is_some(), "{}", ext);
    }
}

#[test]
fn other_extensions_have_no_mime_type() {
    for ext in ["gif", "PNG", "Png", "", "png ", "svg", "mcgf", "jpe", "pn", "pngg"] {
        assert_eq!(mime_type(ext), None, "{}", ext);
    }
}

#[test]
fn offered_extensions_are_the_nine_of_the_dialog() {
    assert_eq!(
        image_extensions(),
        vec!["png", "apng", "jpg", "jpeg", "jfif", "pjpeg", "pjp", "avif", "webp"]
    );
}

#[test]
fn extension_is_what_follows_the_last_dot() {
    assert_eq!(extension("picture.png"), Some("png".to_string()));
    assert_eq!(extension("archive.tar.gz"), Some("gz".to_string()));
    assert_eq!(extension("trailing."), Some(String::new()));
    assert_eq!(extension(".hidden.jpg"), Some("jpg".to_string()));
    assert_eq!(extension("caf\u{e9}.\u{e9}t\u{e9}"), Some("\u{e9}t\u{e9}".to_string()));
    assert_eq!(extension("noextension"), None);
    assert_eq!(extension(".hidden"), None);
    assert_eq!(extension(""), None);
    assert_eq!(extension("."), None);
}

#[test]
fn data_uri_starts_with_the_mime_type() {
    assert_eq!(data_uri_head("image/png"), "data:image/png;base64,");
    assert_eq!(data_uri_head(""), "data:;base64,");
}

#[test]
fn data_uri_holds_mime_type_and_base64() {
    assert_eq!(data_uri("image/png", &b"hello".to_vec()), "data:image/png;base64,aGVsbG8=");
    assert_eq!(data_uri("image/jpeg", &vec![]), "data:image/jpeg;base64,");
    assert_eq!(data_uri("image/webp", &vec![0xff, 0xfe, 0xfd]), "data:image/webp;base64,//79");
    assert_eq!(data_uri("image/avif", &vec![0xfb]), "data:image/avif;base64,+w==");
}

#[test]
fn image_request_needs_a_name_with_an_image_extension() {
    assert_eq!(
        image_request(Some("photo.jpeg".to_string())),
        Some(ImageRequest { file_name: "photo.jpeg".to_string(), mime_type: "image/jpeg" })
    );
    assert_eq!(image_request(Some("notes.txt".to_string())), None);
    assert_eq!(image_request(Some("png".to_string())), None);
    assert_eq!(image_request(Some(".png".to_string())), None);
    assert_eq!(image_request(None), None);
}

#[test]
fn dismissed_image_dialog_notifies_with_nothing() {
    assert_eq!(open_image(None), ImageStep::Notify(Notification::FileSelected(None)));
    assert_eq!(
        image_step(None, Some("a.png".to_string())),
        ImageStep::Notify(Notification::FileSelected(None))
    );
}

#[test]
fn chosen_image_is_read_with_its_name_and_mime_type() {
    assert_eq!(
        open_image(Some("/tmp/pictures/cat.webp".to_string())),
        ImageStep::Read {
            path: "/tmp/pictures/cat.webp".to_string(),
            request: ImageRequest { file_name: "cat.webp".to_string(), mime_type: "image/webp" },
        }
    );
}

#[test]
fn chosen_file_that_is_no_image_notifies_with_nothing() {
    let nothing = ImageStep::Notify(Notification::FileSelected(None));
    assert_eq!(open_image(Some("/tmp/pictures/cat.gif".to_string())), nothing);
    assert_eq!(open_image(Some("/tmp/pictures/cat".to_string())), nothing);
    assert_eq!(open_image(Some("/tmp/pictures/..".to_string())), nothing);
    assert_eq!(open_image(Some("/".to_string())), nothing);
    assert_eq!(image_step(Some("/tmp/x.png".to_string()), None), nothing);
}

#[test]
fn read_image_is_sent_as_name_and_data_uri() {
    let request = ImageRequest { file_name: "cat.png".to_string(), mime_type: "image/png" };
    assert_eq!(
        image_read(request.clone(), Some(b"hello".to_vec())),
        Notification::FileSelected(Some(SelectedImage {
            file_name: "cat.png".to_string(),
            data_uri: "data:image/png;base64,aGVsbG8=".to_string(),
        }))
    );
    assert_eq!(image_read(request, None), Notification::FileSelected(None));
}

#[test]
fn dialogs_have_their_titles_and_filters() {
    let image = image_dialog();
    assert_eq!(image.title, "Select a File");
    assert_eq!(image.filter_name, "Image Files");
    assert_eq!(image.extensions, image_extensions());
    assert_eq!(image.file_name, None);
    assert_eq!(image.directory, None);

    let load = load_dialog();
    assert_eq!(load.title, "Select a File");
    assert_eq!(load.filter_name, "Minecraft GUI Files");
    assert_eq!(load.extensions, vec!["mcgf"]);
    assert_eq!(load.file_name, None);
    assert_eq!(load.directory, None);

    let save = save_dialog(SaveTarget {
        directory: Some("/home/u".to_string()),
        file_name: "old.mcgf".to_string(),
    });
    assert_eq!(save.title, "Save GUI");
    assert_eq!(save.filter_name, "Minecraft GUI Files");
    assert_eq!(save.extensions, vec!["mcgf"]);
    assert_eq!(save.file_name, Some("old.mcgf".to_string()));
    assert_eq!(save.directory, Some("/home/u".to_string()));
}
