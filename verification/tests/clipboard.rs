use omasend::clipboard::{ClipboardError, ClipboardKind, Offer, UriParts, check_uri, file_uris, read_offer, select_mime, temporary_affixes};

#[test]
fn binary_clipboard_is_not_misread_as_text() {
    assert_eq!(
        select_mime(&["text/plain", "image/png"]).unwrap(),
        ClipboardKind::Image("image/png".into())
    );
    assert_eq!(
        select_mime(&["text/plain", "video/mp4"]).unwrap(),
        ClipboardKind::Video("video/mp4".into())
    );
    assert_eq!(
        select_mime(&["image/png", "text/uri-list"]).unwrap(),
        ClipboardKind::Files
    );
}

#[test]
fn remote_file_uri_and_empty_binary_clipboard_are_rejected() {
    match read_offer(&ClipboardKind::Files, b"file://remote/etc/passwd").unwrap() {
        Offer::Files(list) => {
            assert!(list.paths.is_empty());
            assert_eq!(list.error, Some(ClipboardError::NotLocal));
        }
        other => panic!("unexpected offer {other:?}"),
    }
    match read_offer(&ClipboardKind::Files, b"https://example.com/photo.png").unwrap() {
        Offer::Files(list) => {
            assert!(list.paths.is_empty());
            assert_eq!(list.error, Some(ClipboardError::NotLocal));
        }
        other => panic!("unexpected offer {other:?}"),
    }
    assert_eq!(
        read_offer(&ClipboardKind::Image("image/png".into()), b"").unwrap_err(),
        ClipboardError::Empty
    );
}

#[test]
fn file_uris_name_the_original_file() {
    let root = tempfile::tempdir().unwrap();
    let file = root.path().join("photo with space.png");
    let uri = url::Url::from_file_path(&file).unwrap();
    let text = format!("# copied files\r\n{uri}\r\n");
    match read_offer(&ClipboardKind::Files, text.as_bytes()).unwrap() {
        Offer::Files(list) => {
            assert_eq!(list.paths, vec![file.clone()]);
            assert_eq!(list.error, None);
        }
        other => panic!("unexpected offer {other:?}"),
    }
}

#[test]
fn text_clipboard_keeps_its_newlines() {
    match read_offer(&ClipboardKind::Text("text/plain".into()), b"hello\n\n").unwrap() {
        Offer::Text(text) => assert_eq!(text, "hello\n\n"),
        other => panic!("unexpected offer {other:?}"),
    }
    assert_eq!(
        read_offer(&ClipboardKind::Text("text/plain".into()), b"\xff\xfe").unwrap_err(),
        ClipboardError::TextNotUtf8
    );
    assert_eq!(
        read_offer(&ClipboardKind::Files, b"\xff").unwrap_err(),
        ClipboardError::FilesNotUtf8
    );
}

#[test]
fn clipboard_selection_follows_preference_order() {
    assert_eq!(
        select_mime(&["image/gif", "image/jpeg"]).unwrap(),
        ClipboardKind::Image("image/jpeg".into())
    );
    assert_eq!(
        select_mime(&["UTF8_STRING", "text/plain;charset=utf-8"]).unwrap(),
        ClipboardKind::Text("text/plain;charset=utf-8".into())
    );
    assert_eq!(
        select_mime(&["application/x-unknown"]).unwrap_err(),
        ClipboardError::Unsupported
    );
    assert_eq!(select_mime(&[]).unwrap_err(), ClipboardError::Unsupported);
    assert_eq!(
        ClipboardError::Unsupported.message(),
        "Clipboard has no supported files, images, videos or text"
    );
}

#[test]
fn media_kinds_name_their_temporary_files() {
    assert_eq!(ClipboardKind::Files.mime(), "text/uri-list");
    assert_eq!(ClipboardKind::Video("video/quicktime".into()).extension(), Some("mov"));
    assert_eq!(ClipboardKind::Text("text/plain".into()).extension(), None);
    assert_eq!(
        temporary_affixes(&ClipboardKind::Image("image/png".into())).unwrap(),
        ("screenshot-".to_string(), ".png".to_string())
    );
    assert_eq!(
        temporary_affixes(&ClipboardKind::Video("video/x-matroska".into())).unwrap(),
        ("video-".to_string(), ".mkv".to_string())
    );
    assert_eq!(
        temporary_affixes(&ClipboardKind::Image("image/svg+xml".into())).unwrap_err(),
        ClipboardError::UnsupportedMedia
    );
    match read_offer(&ClipboardKind::Video("video/mp4".into()), b"\0\0\0\x18ftypmp42").unwrap() {
        Offer::Media { prefix, suffix } => {
            assert_eq!(prefix, "video-");
            assert_eq!(suffix, ".mp4");
        }
        other => panic!("unexpected offer {other:?}"),
    }
}

#[test]
fn uri_lists_stop_at_the_first_refused_line() {
    let list = file_uris("file:///tmp/a.txt\n\n  # note\nfile:///tmp/b.txt?x=1\nfile:///tmp/c.txt");
    assert_eq!(list.paths, vec![std::path::PathBuf::from("/tmp/a.txt")]);
    assert_eq!(list.error, Some(ClipboardError::QueryOrFragment));
    let list = file_uris("file://localhost/tmp/a.txt\r\nfile:///tmp/b.txt");
    assert_eq!(
        list.paths,
        vec![std::path::PathBuf::from("/tmp/a.txt"), std::path::PathBuf::from("/tmp/b.txt")]
    );
    assert_eq!(list.error, None);
    let list = file_uris("# only a comment\n");
    assert!(list.paths.is_empty());
    assert_eq!(list.error, Some(ClipboardError::NoLocalFiles));
    let list = file_uris("not a uri");
    assert_eq!(list.error, Some(ClipboardError::InvalidUri));
    assert_eq!(ClipboardError::InvalidUri.message(), "Invalid clipboard file URI");
}

fn parts(scheme: &str, host: Option<&str>, query: bool, path: Option<&str>) -> Option<UriParts> {
    Some(UriParts {
        scheme: scheme.into(),
        host: host.map(str::to_owned),
        has_query: query,
        has_fragment: false,
        path: path.map(std::path::PathBuf::from),
    })
}

#[test]
fn only_local_file_uris_name_files() {
    assert_eq!(check_uri(None), Err(ClipboardError::InvalidUri));
    assert_eq!(check_uri(parts("https", None, false, None)), Err(ClipboardError::NotLocal));
    assert_eq!(check_uri(parts("file", Some("nas"), false, Some("/a"))), Err(ClipboardError::NotLocal));
    assert_eq!(check_uri(parts("file", None, true, Some("/a"))), Err(ClipboardError::QueryOrFragment));
    assert_eq!(check_uri(parts("file", None, false, None)), Err(ClipboardError::InvalidPath));
    assert_eq!(
        check_uri(parts("file", Some("localhost"), false, Some("/tmp/a.png"))),
        Ok(std::path::PathBuf::from("/tmp/a.png"))
    );
}
