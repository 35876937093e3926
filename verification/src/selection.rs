//! What the user can ask for, and how the selection moves through a list.

use vstd::prelude::*;
use crate::index::{clone_shots, Screenshots};
use crate::screenshot::{shot_views, Screenshot, SteamApp, ALL_APPS_ID};

verus! {

/// What happened, as the interface reports it.
#[derive(Debug, Clone)]
pub enum Message {
    /// The window is up.
    First,
    /// An application was chosen.
    AppSelected(SteamApp),
    /// The screenshot at this place in the list was chosen.
    ScreenshotSelected(usize),
    /// The chosen screenshot is to be shared.
    Share,
    /// The sharing is to end.
    StopShare,
    /// The selection is to move up.
    KeyUp,
    /// The selection is to move down.
    KeyDown,
    /// The pointer was pressed.
    Clicked,
    /// The server ended.
    Server,
    /// The catalog has arrived.
    FetchFinished,
}

/// A key, as far as the selection cares.
#[derive(Debug, Clone, Copy, PartialEq, Eq, Structural)]
pub enum Key {
    /// The arrow up.
    Up,
    /// The arrow down.
    Down,
    /// Any other key.
    Other,
}

/// What a key asks for: the arrows move the selection, other keys nothing.
pub fn handle_hotkey(key: Key) -> (r: Option<Message>)
    ensures
        key == Key::Up ==> r matches Some(Message::KeyUp),
        key == Key::Down ==> r matches Some(Message::KeyDown),
        key == Key::Other ==> r.is_none(),
{
    match key {
        Key::Up => Some(Message::KeyUp),
        Key::Down => Some(Message::KeyDown),
        Key::Other => None,
    }
}

/// The place after `index` in a list of `len` items, one down or one up;
/// past either end the selection comes back in at the other.
pub open spec fn stepped(index: int, len: int, increment: bool) -> int {
    let next = if increment {
        index + 1
    } else {
        index - 1
    };
    if next < 0 {
        len - 1
    } else if next > len - 1 {
        0
    } else {
        next
    }
}

/// Moves the selection one down (`increment`) or one up in a list of `len`
/// items.
pub fn step_index(index: usize, len: usize, increment: bool) -> (r: usize)
    requires
        len > 0,
    ensures
        r == stepped(index as int, len as int, increment),
        r < len,
{
    if increment {
        if index >= len - 1 {
            0
        } else {
            index + 1
        }
    } else {
        if index == 0 {
            len - 1
        } else if index - 1 > len - 1 {
            0
        } else {
            index - 1
        }
    }
}

impl Screenshots {
    /// The place of the list of the application `id`.
    pub fn find_app(&self, id: &String) -> (r: Option<usize>)
        ensures
            match r {
                Some(g) => g < self.sorted_by_app@.len() && self.sorted_by_app@[g as int]@.app_id == id@
                    && forall|h: int| 0 <= h < g ==> (#[trigger] self.sorted_by_app@[h])@.app_id != id@,
                None => forall|h: int|
                    0 <= h < self.sorted_by_app@.len() ==> (#[trigger] self.sorted_by_app@[h])@.app_id
                        != id@,
            },
    {
        let mut g: usize = 0;
        while g < self.sorted_by_app.len()
            invariant
                g <= self.sorted_by_app@.len(),
                forall|h: int| 0 <= h < g ==> (#[trigger] self.sorted_by_app@[h])@.app_id != id@,
            decreases self.sorted_by_app.len() - g,
        {
            if self.sorted_by_app[g].app_id == *id {
                return Some(g);
            }
            g = g + 1;
        }
        None
    }

    /// The screenshots to show for the chosen application: all of them for
    /// the entry that stands for all, else the application's own; nothing
    /// where the application owns none.
    pub fn shown_for(&self, app: &SteamApp) -> (r: Option<Vec<Screenshot>>)
        ensures
            app@.id == ALL_APPS_ID@ ==> r.is_some() && shot_views(r.unwrap()@) == shot_views(
                self.sorted_all@,
            ),
            app@.id != ALL_APPS_ID@ ==> match r {
                Some(shots) => exists|g: int|
                    0 <= g < self.sorted_by_app@.len() && (#[trigger] self.sorted_by_app@[g])@.app_id
                        == app@.id && shot_views(shots@) == self.sorted_by_app@[g]@.images && forall|h: int|
                        0 <= h < g ==> (#[trigger] self.sorted_by_app@[h])@.app_id != app@.id,
                None => forall|h: int|
                    0 <= h < self.sorted_by_app@.len() ==> (#[trigger] self.sorted_by_app@[h])@.app_id
                        != app@.id,
            },
    {
        if app.is_all() {
            Some(clone_shots(&self.sorted_all))
        } else {
            match self.find_app(&app.id) {
                Some(g) => Some(clone_shots(&self.sorted_by_app[g].images)),
                None => None,
            }
        }
    }
}


/// The list that is shown and what is chosen in it.
#[derive(Debug, Default)]
pub struct Selection {
    /// The screenshots that are shown.
    pub show_images: Vec<Screenshot>,
    /// The chosen screenshot.
    pub selected_image: Option<Screenshot>,
    /// Its place in the list.
    pub selected_image_index: Option<usize>,
    /// Whether the picture on display is that of the chosen screenshot.
    pub display_changed: bool,
}

impl Selection {
    /// Chooses the screenshot at `index`, and says whether it is another
    /// file than the one chosen before.
    pub fn update_selected_image(&mut self, index: usize) -> (changed: bool)
        requires
            index < old(self).show_images@.len(),
        ensures
            changed == match old(self).selected_image {
                Some(earlier) => earlier@.filepath != old(self).show_images@[index as int]@.filepath,
                None => true,
            },
            final(self).selected_image.is_some(),
            final(self).selected_image.unwrap()@ == old(self).show_images@[index as int]@,
            final(self).show_images == old(self).show_images,
            final(self).selected_image_index == old(self).selected_image_index,
            final(self).display_changed == old(self).display_changed,
    {
        let screenshot: Screenshot = self.show_images[index].clone();
        let changed: bool = match &self.selected_image {
            Some(earlier) => !(earlier.filepath == screenshot.filepath),
            None => true,
        };
        self.selected_image = Some(screenshot);
        changed
    }

    /// Moves the choice one down (`increment`) or one up, around the ends of
    /// the list, and notes whether the picture on display is now out of
    /// date. Nothing moves where nothing is chosen or no application is.
    pub fn update_selected_image_index(&mut self, app_chosen: bool, increment: bool)
        requires
            old(self).selected_image_index.is_some() && app_chosen ==> old(self).show_images@.len() > 0,
        ensures
            final(self).show_images == old(self).show_images,
            old(self).selected_image_index.is_none() || !app_chosen ==> *final(self) == *old(self),
            old(self).selected_image_index.is_some() && app_chosen ==> {
                let next = stepped(
                    old(self).selected_image_index.unwrap() as int,
                    old(self).show_images@.len() as int,
                    increment,
                );
                &&& final(self).selected_image_index == Some(next as usize)
                &&& final(self).selected_image.is_some()
                &&& final(self).selected_image.unwrap()@ == old(self).show_images@[next]@
                &&& final(self).display_changed == match old(self).selected_image {
                    Some(earlier) => earlier@.filepath == old(self).show_images@[next]@.filepath,
                    None => false,
                }
            },
    {
        let index: usize = match self.selected_image_index {
            Some(index) => index,
            None => {
                return ;
            },
        };
        if !app_chosen {
            return ;
        }
        let next: usize = step_index(index, self.show_images.len(), increment);
        self.selected_image_index = Some(next);
        let changed: bool = self.update_selected_image(next);
        self.display_changed = !changed;
    }
}

} // verus!
