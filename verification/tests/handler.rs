use media_relay::handler::{
    conflict, refusal, split_path, ContentType, HttpHandler, Method, RegistryError, Reply, Route,
};
use media_relay::streams::AttachError;

fn strings(parts: &[&str]) -> Vec<String> {
    parts.iter().map(|s| s.to_string()).collect()
}

#[test]
fn path_is_split_at_slashes() {
    assert_eq!(split_path("/a/b"), strings(&["a", "b"]));
    assert_eq!(split_path("/radio/mp3"), strings(&["radio", "mp3"]));
    assert_eq!(split_path("/a"), strings(&["a"]));
    assert_eq!(split_path("/a/b/c"), strings(&["a", "b", "c"]));
}

#[test]
fn path_keeps_empty_components() {
    assert_eq!(split_path("/"), strings(&[""]));
    assert_eq!(split_path("//"), strings(&["", ""]));
    assert_eq!(split_path("/a/"), strings(&["a", ""]));
    assert_eq!(split_path("/a//b"), strings(&["a", "", "b"]));
}

#[test]
fn path_without_slash_has_no_component() {
    assert_eq!(split_path(""), strings(&[]));
    assert_eq!(split_path("abc"), strings(&[]));
    assert_eq!(split_path("abc/d"), strings(&["d"]));
}

#[test]
fn path_is_split_by_characters() {
    assert_eq!(split_path("/sender\u{e9}/\u{1f3b5}"), strings(&["sender\u{e9}", "\u{1f3b5}"]));
}

#[test]
fn path_is_split_as_std_splits_it() {
    for path in ["/a/b", "/", "", "//x//", "/one/two/three/", "x/y"] {
        let expected: Vec<String> = path.split('/').skip(1).map(|s| s.to_owned()).collect();
        assert_eq!(split_path(path), expected);
    }
}

#[test]
fn new_registry_is_empty() {
    let handler: HttpHandler<u32> = HttpHandler::new();
    assert!(handler.lookup("A").is_none());
    assert!(handler.lookup("").is_none());
}

#[test]
fn created_stream_is_found() {
    let mut handler: HttpHandler<u32> = HttpHandler::new();
    assert_eq!(handler.create("A".to_string(), 1), Ok(()));
    assert_eq!(handler.create("B".to_string(), 2), Ok(()));
    assert_eq!(handler.lookup("A"), Some(&1));
    assert_eq!(handler.lookup("B"), Some(&2));
    assert_eq!(handler.lookup("C"), None);
}

#[test]
fn name_of_a_live_stream_is_taken() {
    let mut handler: HttpHandler<u32> = HttpHandler::new();
    assert_eq!(handler.create("A".to_string(), 1), Ok(()));
    assert_eq!(handler.create("A".to_string(), 2), Err(RegistryError::AlreadyExists));
    assert_eq!(handler.lookup("A"), Some(&1));
}

#[test]
fn removed_stream_is_gone_and_its_name_free() {
    let mut handler: HttpHandler<u32> = HttpHandler::new();
    handler.create("A".to_string(), 1).unwrap();
    handler.create("B".to_string(), 2).unwrap();
    assert_eq!(handler.remove("A"), Some(1));
    assert_eq!(handler.lookup("A"), None);
    assert_eq!(handler.lookup("B"), Some(&2));
    assert_eq!(handler.remove("A"), None);
    assert_eq!(handler.create("A".to_string(), 3), Ok(()));
    assert_eq!(handler.lookup("A"), Some(&3));
}

#[test]
fn put_and_post_upload() {
    let handler: HttpHandler<u32> = HttpHandler::new();
    match handler.handle(Method::Put, "/A") {
        Route::Upload { name } => assert_eq!(name, "A"),
        other => panic!("{:?}", other),
    }
    match handler.handle(Method::Post, "/radio/ignored") {
        Route::Upload { name } => assert_eq!(name, "radio"),
        other => panic!("{:?}", other),
    }
}

#[test]
fn get_downloads_from_a_live_stream() {
    let mut handler: HttpHandler<u32> = HttpHandler::new();
    handler.create("A".to_string(), 7).unwrap();
    match handler.handle(Method::Get, "/A/mp3") {
        Route::Download { stream, format } => {
            assert_eq!(*stream, 7);
            assert_eq!(format, "mp3");
        }
        other => panic!("{:?}", other),
    }
}

#[test]
fn get_of_an_unknown_stream_finds_nothing() {
    let mut handler: HttpHandler<u32> = HttpHandler::new();
    handler.create("A".to_string(), 7).unwrap();
    assert!(matches!(handler.handle(Method::Get, "/B/mp3"), Route::UnknownStream));
}

#[test]
fn get_without_format_is_rejected() {
    let mut handler: HttpHandler<u32> = HttpHandler::new();
    handler.create("A".to_string(), 7).unwrap();
    assert!(matches!(handler.handle(Method::Get, "/A"), Route::Reject));
    assert!(matches!(handler.handle(Method::Get, ""), Route::Reject));
}

#[test]
fn upload_without_component_is_rejected() {
    let handler: HttpHandler<u32> = HttpHandler::new();
    assert!(matches!(handler.handle(Method::Put, ""), Route::Reject));
    assert!(matches!(handler.handle(Method::Post, "A"), Route::Reject));
}

#[test]
fn other_methods_are_rejected() {
    let mut handler: HttpHandler<u32> = HttpHandler::new();
    handler.create("A".to_string(), 7).unwrap();
    assert!(matches!(handler.handle(Method::Other, "/A/mp3"), Route::Reject));
    assert!(matches!(handler.handle(Method::Other, "/A"), Route::Reject));
}

#[test]
fn replies_follow_the_route() {
    let mut handler: HttpHandler<u32> = HttpHandler::new();
    handler.create("A".to_string(), 7).unwrap();
    assert_eq!(
        handler.handle(Method::Put, "/B").reply(),
        Reply { status: 200, content_type: Some(ContentType::TextHtml) }
    );
    assert_eq!(
        handler.handle(Method::Get, "/A/ogg").reply(),
        Reply { status: 200, content_type: Some(ContentType::VideoMp4) }
    );
    assert_eq!(handler.handle(Method::Get, "/B/ogg").reply(), Reply { status: 404, content_type: None });
    assert_eq!(handler.handle(Method::Other, "/A/ogg").reply(), Reply { status: 400, content_type: None });
}

#[test]
fn refusals_have_their_status() {
    assert_eq!(conflict(RegistryError::AlreadyExists), Reply { status: 409, content_type: None });
    assert_eq!(refusal(&AttachError::UnknownFormat), Reply { status: 404, content_type: None });
    assert_eq!(refusal(&AttachError::Exhausted), Reply { status: 503, content_type: None });
    assert_eq!(refusal(&AttachError::NotConstructing), Reply { status: 500, content_type: None });
    assert_eq!(
        refusal(&AttachError::GraphConstructionFailed { reason: "Cannot get tee".to_string(), undo: vec![] }),
        Reply { status: 500, content_type: None }
    );
}
