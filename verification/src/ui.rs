//! What the interface holds besides its widgets, and what each message makes
//! of it. The caller carries out the effect that a message asks for.

use vstd::prelude::*;
use crate::index::{clone_shots, Screenshots};
use crate::screenshot::{shot_views, Screenshot, ScreenshotView, SteamApp, SteamAppView, ALL_APPS_ID};
use crate::selection::{stepped, Message, Selection};

verus! {

/// The interface's state.
#[derive(Debug, Default)]
pub struct UiState {
    /// Whether the dialog with the address is open.
    pub show_modal: bool,
    /// The chosen application.
    pub selected_steam_app: Option<SteamApp>,
    /// The list that is shown and what is chosen in it.
    pub selection: Selection,
    /// Whether the list has the keyboard.
    pub images_focused: bool,
    /// Whether the last press chose a screenshot.
    pub image_selected: bool,
    /// The address of the published screenshot.
    pub share_url: Option<String>,
}

/// What the caller has to do after a message.
#[derive(Debug)]
pub enum Effect {
    /// Nothing.
    Nothing,
    /// Give the window its size.
    ResizeWindow,
    /// Read the catalog and the screenshots anew, then call `refreshed`.
    Refresh,
    /// Show no picture.
    ClearPicture,
    /// Show the picture in this file.
    LoadPicture(String),
    /// Publish this screenshot, then call `shared` with its address.
    Share(Screenshot),
    /// Empty the share slot.
    StopShare,
    /// Note that the server has ended.
    ServerClosed,
}

/// `list` is what is shown for `app`: all screenshots for the entry that
/// stands for all, else those of the first list of that application, and
/// nothing where there is none.
pub open spec fn shown_as(images: &Screenshots, app: SteamAppView, list: Seq<ScreenshotView>) -> bool {
    if app.id == ALL_APPS_ID@ {
        list == shot_views(images.sorted_all@)
    } else {
        ||| exists|g: int|
            0 <= g < images.sorted_by_app@.len() && (#[trigger] images.sorted_by_app@[g])@.app_id == app.id
                && list == images.sorted_by_app@[g]@.images && forall|h: int|
                0 <= h < g ==> (#[trigger] images.sorted_by_app@[h])@.app_id != app.id
        ||| list.len() == 0 && forall|h: int|
            0 <= h < images.sorted_by_app@.len() ==> (#[trigger] images.sorted_by_app@[h])@.app_id != app.id
    }
}

/// Whether `app` is the chosen application.
pub open spec fn is_chosen(chosen: Option<SteamApp>, app: SteamAppView) -> bool {
    match chosen {
        Some(current) => current@ == app,
        None => false,
    }
}

/// What a press of the pointer makes of the state.
pub open spec fn clicked_post(pre: &UiState, post: &UiState) -> bool {
    &&& post.images_focused == (pre.images_focused && pre.image_selected)
    &&& !post.image_selected
    &&& post.show_modal == pre.show_modal
    &&& post.selected_steam_app == pre.selected_steam_app
    &&& post.selection == pre.selection
    &&& post.share_url == pre.share_url
}

/// What the end of the sharing makes of the state.
pub open spec fn stop_share_post(pre: &UiState, post: &UiState) -> bool {
    &&& !post.show_modal
    &&& post.share_url.is_none()
    &&& post.selected_steam_app == pre.selected_steam_app
    &&& post.selection == pre.selection
    &&& post.images_focused == pre.images_focused
    &&& post.image_selected == pre.image_selected
}

/// What the choice of an application makes of the state, and whether it
/// was another application.
pub open spec fn select_app_post(
    pre: &UiState,
    images: &Screenshots,
    app: SteamAppView,
    post: &UiState,
    changed: bool,
) -> bool {
    &&& changed == !is_chosen(pre.selected_steam_app, app)
    &&& !changed ==> *post == *pre
    &&& changed ==> {
        &&& is_chosen(post.selected_steam_app, app)
        &&& shown_as(images, app, shot_views(post.selection.show_images@))
        &&& post.selection.selected_image.is_none()
        &&& post.selection.selected_image_index.is_none()
        &&& post.selection.display_changed == pre.selection.display_changed
    }
    &&& post.show_modal == pre.show_modal
    &&& post.images_focused == pre.images_focused
    &&& post.image_selected == pre.image_selected
    &&& post.share_url == pre.share_url
}

/// What the choice of a screenshot makes of the state, and the file whose
/// picture is to be shown.
pub open spec fn select_screenshot_post(
    pre: &UiState,
    index: usize,
    post: &UiState,
    picture: Option<String>,
) -> bool {
    &&& post.images_focused
    &&& post.image_selected
    &&& post.show_modal == pre.show_modal
    &&& post.selected_steam_app == pre.selected_steam_app
    &&& post.share_url == pre.share_url
    &&& post.selection.show_images == pre.selection.show_images
    &&& pre.selected_steam_app.is_none() ==> picture.is_none() && post.selection == pre.selection
    &&& pre.selected_steam_app.is_some() ==> {
        let chosen = pre.selection.show_images@[index as int]@;
        let other_file = match pre.selection.selected_image {
            Some(earlier) => earlier@.filepath != chosen.filepath,
            None => true,
        };
        let load = other_file || !pre.selection.display_changed;
        &&& post.selection.selected_image_index == Some(index)
        &&& post.selection.selected_image.is_some()
        &&& post.selection.selected_image.unwrap()@ == chosen
        &&& post.selection.display_changed == (load || pre.selection.display_changed)
        &&& load ==> picture.is_some() && picture.unwrap()@ == chosen.filepath
        &&& !load ==> picture.is_none()
    }
}

/// What an arrow key makes of the state.
pub open spec fn key_post(pre: &UiState, increment: bool, post: &UiState) -> bool {
    &&& post.show_modal == pre.show_modal
    &&& post.selected_steam_app == pre.selected_steam_app
    &&& post.images_focused == pre.images_focused
    &&& post.image_selected == pre.image_selected
    &&& post.share_url == pre.share_url
    &&& post.selection.show_images == pre.selection.show_images
    &&& !pre.key_moves() ==> post.selection == pre.selection
    &&& pre.key_moves() ==> {
        let next = stepped(
            pre.selection.selected_image_index.unwrap() as int,
            pre.selection.show_images@.len() as int,
            increment,
        );
        &&& post.selection.selected_image_index == Some(next as usize)
        &&& post.selection.selected_image.is_some()
        &&& post.selection.selected_image.unwrap()@ == pre.selection.show_images@[next]@
        &&& post.selection.display_changed == match pre.selection.selected_image {
            Some(earlier) => earlier@.filepath == pre.selection.show_images@[next]@.filepath,
            None => false,
        }
    }
}

/// The messages that the state can take in: a screenshot can only be chosen
/// at a place of the list, and the choice can only move in a list that is
/// not empty.
pub open spec fn update_allowed(pre: &UiState, message: &Message) -> bool {
    match *message {
        Message::ScreenshotSelected(index) => pre.selected_steam_app.is_some() ==> index
            < pre.selection.show_images@.len(),
        Message::KeyUp => pre.key_moves() ==> pre.selection.show_images@.len() > 0,
        Message::KeyDown => pre.key_moves() ==> pre.selection.show_images@.len() > 0,
        _ => true,
    }
}

/// What a message makes of the state, and what it asks of the caller.
pub open spec fn update_post(
    pre: &UiState,
    images: &Screenshots,
    message: &Message,
    post: &UiState,
    effect: &Effect,
) -> bool {
    match *message {
        Message::First => *post == *pre && (*effect is ResizeWindow),
        Message::FetchFinished => *post == *pre && (*effect is Refresh),
        Message::Server => *post == *pre && (*effect is ServerClosed),
        Message::AppSelected(app) => {
            let changed = !is_chosen(pre.selected_steam_app, app@);
            &&& select_app_post(pre, images, app@, post, changed)
            &&& changed ==> (*effect is ClearPicture)
            &&& !changed ==> (*effect is Nothing)
        },
        Message::ScreenshotSelected(index) => match *effect {
            Effect::LoadPicture(filepath) => select_screenshot_post(pre, index, post, Some(filepath)),
            Effect::Nothing => select_screenshot_post(pre, index, post, None),
            _ => false,
        },
        Message::Share => *post == *pre && match *effect {
            Effect::Share(shot) => pre.selection.selected_image.is_some() && shot@
                == pre.selection.selected_image.unwrap()@,
            Effect::Nothing => pre.selection.selected_image.is_none(),
            _ => false,
        },
        Message::StopShare => stop_share_post(pre, post) && (*effect is StopShare),
        Message::KeyUp => key_post(pre, false, post) && (*effect is Nothing),
        Message::KeyDown => key_post(pre, true, post) && (*effect is Nothing),
        Message::Clicked => clicked_post(pre, post) && (*effect is Nothing),
    }
}

impl UiState {
    /// The state at the start: the entry for all applications is chosen,
    /// nothing is shown, and the picture counts as current.
    pub fn new() -> (r: UiState)
        ensures
            !r.show_modal,
            is_chosen(r.selected_steam_app, crate::screenshot::all_apps()),
            r.selection.show_images@.len() == 0,
            r.selection.selected_image.is_none(),
            r.selection.selected_image_index.is_none(),
            r.selection.display_changed,
            !r.images_focused,
            !r.image_selected,
            r.share_url.is_none(),
    {
        UiState {
            show_modal: false,
            selected_steam_app: Some(SteamApp::all()),
            selection: Selection {
                show_images: Vec::new(),
                selected_image: None,
                selected_image_index: None,
                display_changed: true,
            },
            images_focused: false,
            image_selected: false,
            share_url: None,
        }
    }

    /// A press of the pointer: the list keeps the keyboard only where the
    /// press chose a screenshot.
    pub fn clicked(&mut self)
        ensures
            clicked_post(old(self), final(self)),
    {
        if !self.image_selected {
            self.images_focused = false;
        }
        self.image_selected = false;
    }

    /// The sharing ends: the dialog closes and the address is forgotten.
    pub fn stop_share(&mut self)
        ensures
            stop_share_post(old(self), final(self)),
    {
        self.show_modal = false;
        self.share_url = None;
    }

    /// A screenshot was published at `url`: the dialog opens with it.
    pub fn shared(&mut self, url: String)
        ensures
            final(self).show_modal,
            final(self).share_url == Some(url),
            final(self).selected_steam_app == old(self).selected_steam_app,
            final(self).selection == old(self).selection,
            final(self).images_focused == old(self).images_focused,
            final(self).image_selected == old(self).image_selected,
    {
        self.share_url = Some(url);
        self.show_modal = true;
    }

    /// The lists were made anew: all screenshots of the new lists are shown,
    /// in place of what was shown before.
    pub fn refreshed(&mut self, images: &Screenshots)
        ensures
            shot_views(final(self).selection.show_images@) == shot_views(images.sorted_all@),
            final(self).selection.selected_image == old(self).selection.selected_image,
            final(self).selection.selected_image_index == old(self).selection.selected_image_index,
            final(self).selection.display_changed == old(self).selection.display_changed,
            final(self).show_modal == old(self).show_modal,
            final(self).selected_steam_app == old(self).selected_steam_app,
            final(self).images_focused == old(self).images_focused,
            final(self).image_selected == old(self).image_selected,
            final(self).share_url == old(self).share_url,
    {
        self.selection.show_images = clone_shots(&images.sorted_all);
    }

    /// An application was chosen. Where it is another than before, its
    /// screenshots are shown and none of them is chosen; the result says
    /// whether it was another.
    pub fn select_app(&mut self, images: &Screenshots, app: SteamApp) -> (changed: bool)
        ensures
            select_app_post(old(self), images, app@, final(self), changed),
    {
        let same: bool = match &self.selected_steam_app {
            Some(current) => current.id == app.id && current.title == app.title,
            None => false,
        };
        if same {
            return false;
        }
        let shots: Vec<Screenshot> = match images.shown_for(&app) {
            Some(shots) => shots,
            None => Vec::new(),
        };
        proof {
            assert(shown_as(images, app@, shot_views(shots@)));
        }
        self.selection.show_images = shots;
        self.selection.selected_image = None;
        self.selection.selected_image_index = None;
        self.selected_steam_app = Some(app);
        true
    }

    /// The screenshot at `index` was chosen. The result is the file whose
    /// picture is to be shown now, if the picture on display is not it.
    pub fn select_screenshot(&mut self, index: usize) -> (picture: Option<String>)
        requires
            old(self).selected_steam_app.is_some() ==> index < old(self).selection.show_images@.len(),
        ensures
            select_screenshot_post(old(self), index, final(self), picture),
    {
        self.images_focused = true;
        self.image_selected = true;
        if self.selected_steam_app.is_none() {
            return None;
        }
        self.selection.selected_image_index = Some(index);
        let other_file: bool = self.selection.update_selected_image(index);
        if other_file || !self.selection.display_changed {
            self.selection.display_changed = true;
            Some(self.selection.show_images[index].filepath.clone())
        } else {
            None
        }
    }

    /// Whether an arrow key moves the choice now: the dialog is closed, the
    /// list has the keyboard, a screenshot is chosen and an application is.
    pub open spec fn key_moves(&self) -> bool {
        !self.show_modal && self.images_focused && self.selection.selected_image_index.is_some()
            && self.selected_steam_app.is_some()
    }

    /// An arrow key: the choice moves one down (`increment`) or one up,
    /// around the ends of the list.
    pub fn key(&mut self, increment: bool)
        requires
            old(self).key_moves() ==> old(self).selection.show_images@.len() > 0,
        ensures
            key_post(old(self), increment, final(self)),
    {
        if !self.show_modal && self.images_focused {
            let app_chosen: bool = self.selected_steam_app.is_some();
            self.selection.update_selected_image_index(app_chosen, increment);
        }
    }

    /// What a message asks of the caller, after the state has taken it in.
    pub fn update(&mut self, images: &Screenshots, message: Message) -> (effect: Effect)
        requires
            update_allowed(old(self), &message),
        ensures
            update_post(old(self), images, &message, final(self), &effect),
    {
        match message {
            Message::First => Effect::ResizeWindow,
            Message::FetchFinished => Effect::Refresh,
            Message::AppSelected(app) => {
                if self.select_app(images, app) {
                    Effect::ClearPicture
                } else {
                    Effect::Nothing
                }
            },
            Message::ScreenshotSelected(index) => {
                match self.select_screenshot(index) {
                    Some(filepath) => Effect::LoadPicture(filepath),
                    None => Effect::Nothing,
                }
            },
            Message::Share => {
                match self.to_share() {
                    Some(shot) => Effect::Share(shot),
                    None => Effect::Nothing,
                }
            },
            Message::StopShare => {
                self.stop_share();
                Effect::StopShare
            },
            Message::KeyUp => {
                self.key(false);
                Effect::Nothing
            },
            Message::KeyDown => {
                self.key(true);
                Effect::Nothing
            },
            Message::Clicked => {
                self.clicked();
                Effect::Nothing
            },
            Message::Server => Effect::ServerClosed,
        }
    }

    /// The screenshot to publish: the chosen one, if there is one.
    pub fn to_share(&self) -> (r: Option<Screenshot>)
        ensures
            r.is_some() == self.selection.selected_image.is_some(),
            r.is_some() ==> r.unwrap()@ == self.selection.selected_image.unwrap()@,
    {
        match &self.selection.selected_image {
            Some(shot) => Some(shot.clone()),
            None => None,
        }
    }
}

} // verus!
