use sharess::app::App;
use sharess::screenshot::Screenshot;
use sharess::share::{base_url, content_disposition, create_image_response, dyn_reply, not_found,
    share_url, SharedFile, SharedScreenshot, CONTENT_TYPE};

fn a_jpg() -> Screenshot {
    Screenshot {
        filepath: String::from("/r/100/screenshots/a.jpg"),
        filename: String::from("a.jpg"),
        app_id: String::from("100"),
    }
}

fn b_jpg() -> Screenshot {
    Screenshot {
        filepath: String::from("/r/100/screenshots/b.jpg"),
        filename: String::from("b.jpg"),
        app_id: String::from("100"),
    }
}

#[test]
fn publish_then_resolve_gives_the_file() {
    let mut slot = SharedScreenshot::default();
    let token = slot.publish(&a_jpg());
    assert_eq!(
        slot.resolve(&token),
        Some(SharedFile { filepath: String::from("/r/100/screenshots/a.jpg"), filename: String::from("a.jpg") })
    );
    assert_eq!(slot.resolve("other"), None);
    assert_eq!(slot.resolve(""), None);
    assert_eq!(slot.resolve(&token[..35]), None);
}

#[test]
fn tokens_are_fresh_and_well_shaped() {
    let mut slot = SharedScreenshot::default();
    let first = slot.publish(&a_jpg());
    let second = slot.publish(&a_jpg());
    assert_eq!(first.chars().count(), 36);
    assert_eq!(second.chars().count(), 36);
    assert_ne!(first, second);
    assert_eq!(first.as_bytes()[8], b'-');
    assert_eq!(first.as_bytes()[14], b'4');
    assert_eq!(slot.uuid, Some(second));
}

#[test]
fn publishing_again_invalidates_the_old_token() {
    let mut slot = SharedScreenshot::default();
    slot.publish_with(&a_jpg(), String::from("token-x"));
    slot.publish_with(&b_jpg(), String::from("token-y"));
    assert_eq!(slot.resolve("token-x"), None);
    assert_eq!(
        slot.resolve("token-y"),
        Some(SharedFile { filepath: String::from("/r/100/screenshots/b.jpg"), filename: String::from("b.jpg") })
    );
}

#[test]
fn clearing_invalidates_the_token() {
    let mut slot = SharedScreenshot::default();
    let token = slot.publish(&a_jpg());
    slot.clear();
    assert_eq!(slot.resolve(&token), None);
    assert_eq!(slot, SharedScreenshot::default());
}

#[test]
fn clearing_twice_is_clearing_once() {
    let mut once = SharedScreenshot::default();
    once.set_values(String::from("p"), String::from("n"), String::from("t"));
    once.clear();
    let mut twice = SharedScreenshot::default();
    twice.set_values(String::from("p"), String::from("n"), String::from("t"));
    twice.clear();
    twice.clear();
    assert_eq!(once, twice);
    assert_eq!(twice.filepath, None);
    assert_eq!(twice.filename, None);
    assert_eq!(twice.uuid, None);
}

#[test]
fn a_half_filled_slot_serves_nothing() {
    let slot = SharedScreenshot { filepath: None, filename: Some(String::from("n")), uuid: Some(String::from("t")) };
    assert_eq!(slot.resolve("t"), None);
}

#[test]
fn set_values_fills_the_slot() {
    let mut slot = SharedScreenshot::default();
    slot.set_values(String::from("p"), String::from("n"), String::from("t"));
    assert_eq!(slot.filepath, Some(String::from("p")));
    assert_eq!(slot.filename, Some(String::from("n")));
    assert_eq!(slot.uuid, Some(String::from("t")));
}

#[test]
fn share_gives_the_address_of_the_file() {
    let mut app = App::new();
    app.prepare_server(String::from("192.168.1.20"), 8080);
    assert_eq!(app.base_url, "http://192.168.1.20:8080/");
    assert_eq!(app.server_port, 8080);
    assert_eq!(app.server_ip, "192.168.1.20");
    let mut slot = SharedScreenshot::default();
    let url = app.share(&mut slot, a_jpg());
    assert!(url.starts_with("http://192.168.1.20:8080/"));
    let token = &url["http://192.168.1.20:8080/".len()..];
    assert_eq!(token.len(), 36);
    let file = dyn_reply(&slot, token).unwrap();
    let reply = create_image_response(&file.filename, Some(vec![1u8, 2, 3]));
    assert_eq!(reply.status, 200);
    assert_eq!(reply.body, vec![1u8, 2, 3]);
    assert_eq!(reply.headers.len(), 2);
    assert_eq!(reply.headers[0], (String::from("Content-Type"), String::from("application/force-download")));
    assert_eq!(
        reply.headers[1],
        (String::from("Content-Disposition"), String::from("attachment; filename=\"a.jpg\""))
    );
    let missing = dyn_reply(&slot, "00000000-0000-4000-8000-000000000000").unwrap_err();
    assert_eq!(missing.status, 404);
    assert!(missing.body.is_empty());
    assert!(missing.headers.is_empty());
    app.stop_share(&mut slot);
    assert_eq!(dyn_reply(&slot, token).unwrap_err(), not_found());
}

#[test]
fn an_unreadable_file_is_a_server_error() {
    let reply = create_image_response("a.jpg", None);
    assert_eq!(reply.status, 500);
    assert!(reply.headers.is_empty());
    assert!(reply.body.is_empty());
}

#[test]
fn addresses_are_put_together() {
    assert_eq!(base_url("10.0.0.1", 0), "http://10.0.0.1:0/");
    assert_eq!(base_url("10.0.0.1", 65535), "http://10.0.0.1:65535/");
    assert_eq!(share_url("http://10.0.0.1:80/", "abc"), "http://10.0.0.1:80/abc");
    assert_eq!(content_disposition("a.jpg"), "attachment; filename=\"a.jpg\"");
    assert_eq!(CONTENT_TYPE, "application/force-download");
}

#[test]
fn a_token_is_one_path_segment() {
    let mut slot = SharedScreenshot::default();
    let token = slot.publish(&a_jpg());
    let chars: Vec<char> = token.chars().collect();
    assert_eq!(chars.len(), 36);
    for (i, c) in chars.iter().enumerate() {
        if i == 8 || i == 13 || i == 18 || i == 23 {
            assert_eq!(*c, '-');
        } else {
            assert!(matches!(*c, '0'..='9' | 'a'..='f'));
        }
    }
    assert_eq!(chars[14], '4');
    assert!(!token.contains('/'));
    assert!(!token.contains('?'));
    assert!(!token.contains('#'));
}
