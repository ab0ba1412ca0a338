use folio_core::detect_media_type;
use folio_core::{MediaType, PhotoFormat, VideoFormat};

#[test]
fn test_detect_media_type_jpeg() {
    let media_type = detect_media_type("test.jpg");
    assert_eq!(media_type, Some(MediaType::Photo(PhotoFormat::Jpeg)));

    let media_type = detect_media_type("test.JPG");
    assert_eq!(media_type, Some(MediaType::Photo(PhotoFormat::Jpeg)));

    let media_type = detect_media_type("test.jpeg");
    assert_eq!(media_type, Some(MediaType::Photo(PhotoFormat::Jpeg)));
}

#[test]
fn test_detect_media_type_video() {
    let media_type = detect_media_type("test.mov");
    assert_eq!(media_type, Some(MediaType::Video(VideoFormat::Mov)));

    let media_type = detect_media_type("test.MOV");
    assert_eq!(media_type, Some(MediaType::Video(VideoFormat::Mov)));

    let media_type = detect_media_type("test.mp4");
    assert_eq!(media_type, Some(MediaType::Video(VideoFormat::Mp4)));
}

#[test]
fn test_detect_media_type_non_media() {
    let media_type = detect_media_type("test.txt");
    assert_eq!(media_type, None);

    let media_type = detect_media_type("test.pdf");
    assert_eq!(media_type, None);
}

#[test]
fn test_detect_media_type_paths_and_edge_names() {
    // The extension is taken from the part after the last '/'.
    assert_eq!(
        detect_media_type("some/dir/photo.jpeg"),
        Some(MediaType::Photo(PhotoFormat::Jpeg))
    );
    // A leading dot alone does not make an extension.
    assert_eq!(detect_media_type(".jpg"), None);
    assert_eq!(detect_media_type("dir.jpg/file"), None);
    // A trailing dot gives an empty extension, which is not a media type.
    assert_eq!(detect_media_type("photo."), None);
    assert_eq!(detect_media_type("archive.tar.mp4"), Some(MediaType::Video(VideoFormat::Mp4)));
    assert_eq!(detect_media_type(""), None);
}

#[test]
fn test_media_type_kind_predicates() {
    let p = MediaType::Photo(PhotoFormat::Jpeg);
    let v = MediaType::Video(VideoFormat::Mp4);
    assert!(p.is_photo());
    assert!(!p.is_video());
    assert!(v.is_video());
    assert!(!v.is_photo());
}
