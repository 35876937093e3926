use sharess::index::{ImageIndex, Screenshots};
use sharess::screenshot::{Screenshot, SteamApp};
use sharess::selection::Message;
use sharess::ui::{Effect, UiState};

fn shot(app_id: &str, name: &str) -> Screenshot {
    Screenshot {
        filepath: format!("/r/{}/screenshots/{}", app_id, name),
        filename: name.to_string(),
        app_id: app_id.to_string(),
    }
}

fn lists() -> Screenshots {
    let mut index = ImageIndex::new();
    index.insert(shot("10", "a.jpg"));
    index.insert(shot("20", "b.jpg"));
    index.insert(shot("10", "c.jpg"));
    index.get_images()
}

fn names(shots: &Vec<Screenshot>) -> Vec<String> {
    let mut out = Vec::new();
    for s in shots.iter() {
        out.push(s.filename.clone());
    }
    out
}

fn ready() -> (UiState, Screenshots) {
    let images = lists();
    let mut state = UiState::new();
    assert!(matches!(state.update(&images, Message::FetchFinished), Effect::Refresh));
    state.refreshed(&images);
    (state, images)
}

#[test]
fn the_state_starts_with_all_applications_chosen() {
    let state = UiState::new();
    assert_eq!(state.selected_steam_app, Some(SteamApp::all()));
    assert!(!state.show_modal);
    assert!(state.selection.show_images.is_empty());
    assert!(state.selection.display_changed);
    assert_eq!(state.share_url, None);
}

#[test]
fn first_and_server_messages_leave_the_state_alone() {
    let (mut state, images) = ready();
    assert!(matches!(state.update(&images, Message::First), Effect::ResizeWindow));
    assert!(matches!(state.update(&images, Message::Server), Effect::ServerClosed));
    assert_eq!(names(&state.selection.show_images), vec!["c.jpg", "b.jpg", "a.jpg"]);
}

#[test]
fn choosing_an_application_shows_its_screenshots() {
    let (mut state, images) = ready();
    let ten = SteamApp { id: String::from("10"), title: String::from("Ten") };
    assert!(matches!(state.update(&images, Message::AppSelected(ten.clone())), Effect::ClearPicture));
    assert_eq!(names(&state.selection.show_images), vec!["c.jpg", "a.jpg"]);
    assert_eq!(state.selected_steam_app, Some(ten.clone()));
    assert!(matches!(state.update(&images, Message::AppSelected(ten)), Effect::Nothing));
    assert!(matches!(state.update(&images, Message::AppSelected(SteamApp::all())), Effect::ClearPicture));
    assert_eq!(names(&state.selection.show_images), vec!["c.jpg", "b.jpg", "a.jpg"]);
    let none = SteamApp { id: String::from("99"), title: String::new() };
    assert!(matches!(state.update(&images, Message::AppSelected(none)), Effect::ClearPicture));
    assert!(state.selection.show_images.is_empty());
}

#[test]
fn choosing_a_screenshot_loads_its_picture_once() {
    let (mut state, images) = ready();
    match state.update(&images, Message::ScreenshotSelected(1)) {
        Effect::LoadPicture(path) => assert_eq!(path, "/r/20/screenshots/b.jpg"),
        other => panic!("unexpected effect {:?}", other),
    }
    assert!(state.images_focused);
    assert!(state.image_selected);
    assert_eq!(state.selection.selected_image_index, Some(1));
    assert!(matches!(state.update(&images, Message::ScreenshotSelected(1)), Effect::Nothing));
    assert!(matches!(state.update(&images, Message::ScreenshotSelected(2)), Effect::LoadPicture(_)));
}

#[test]
fn keys_move_the_choice_only_in_a_focused_list() {
    let (mut state, images) = ready();
    assert!(matches!(state.update(&images, Message::KeyDown), Effect::Nothing));
    assert_eq!(state.selection.selected_image_index, None);
    let _ = state.update(&images, Message::ScreenshotSelected(2));
    assert!(matches!(state.update(&images, Message::KeyDown), Effect::Nothing));
    assert_eq!(state.selection.selected_image_index, Some(0));
    assert!(!state.selection.display_changed);
    let _ = state.update(&images, Message::KeyUp);
    assert_eq!(state.selection.selected_image_index, Some(2));
    let _ = state.update(&images, Message::Clicked);
    assert!(state.images_focused);
    let _ = state.update(&images, Message::Clicked);
    assert!(!state.images_focused);
    let _ = state.update(&images, Message::KeyUp);
    assert_eq!(state.selection.selected_image_index, Some(2));
}

#[test]
fn sharing_opens_and_closes_the_dialog() {
    let (mut state, images) = ready();
    assert!(matches!(state.update(&images, Message::Share), Effect::Nothing));
    let _ = state.update(&images, Message::ScreenshotSelected(0));
    match state.update(&images, Message::Share) {
        Effect::Share(s) => assert_eq!(s, shot("10", "c.jpg")),
        other => panic!("unexpected effect {:?}", other),
    }
    state.shared(String::from("http://10.0.0.1:80/t"));
    assert!(state.show_modal);
    assert_eq!(state.share_url, Some(String::from("http://10.0.0.1:80/t")));
    let _ = state.update(&images, Message::KeyDown);
    assert_eq!(state.selection.selected_image_index, Some(0));
    assert!(matches!(state.update(&images, Message::StopShare), Effect::StopShare));
    assert!(!state.show_modal);
    assert_eq!(state.share_url, None);
}

#[test]
fn a_refresh_shows_the_new_lists_only() {
    let (mut state, images) = ready();
    state.refreshed(&images);
    assert_eq!(names(&state.selection.show_images), vec!["c.jpg", "b.jpg", "a.jpg"]);
    let empty = ImageIndex::new().get_images();
    state.refreshed(&empty);
    assert!(state.selection.show_images.is_empty());
}
