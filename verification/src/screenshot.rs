//! Screenshots and the applications that own them.

use vstd::prelude::*;
use vstd::string::StringExecFns;

verus! {

/// The id that stands for all applications together.
pub const ALL_APPS_ID: &'static str = "0";

/// The title of an application that the catalog does not list.
pub const UNKNOWN_TITLE: &'static str = "None";

/// One screenshot file on disk.
#[derive(Debug, Default, PartialEq, Eq)]
pub struct Screenshot {
    /// Where the file is.
    pub filepath: String,
    /// The file's base name, by which screenshots are shown and sorted.
    pub filename: String,
    /// The application that owns the screenshot.
    pub app_id: String,
}

/// A screenshot as plain values.
pub ghost struct ScreenshotView {
    pub filepath: Seq<char>,
    pub filename: Seq<char>,
    pub app_id: Seq<char>,
}

impl View for Screenshot {
    type V = ScreenshotView;

    open spec fn view(&self) -> ScreenshotView {
        ScreenshotView { filepath: self.filepath@, filename: self.filename@, app_id: self.app_id@ }
    }
}

impl Clone for Screenshot {
    fn clone(&self) -> (r: Self)
        ensures
            r@ == self@,
    {
        Screenshot {
            filepath: self.filepath.clone(),
            filename: self.filename.clone(),
            app_id: self.app_id.clone(),
        }
    }
}

impl Screenshot {
    /// How a screenshot is shown: by its file name.
    pub fn display(&self) -> (r: String)
        ensures
            r@ == self@.filename,
    {
        self.filename.clone()
    }
}

/// The views of a list of screenshots.
pub open spec fn shot_views(shots: Seq<Screenshot>) -> Seq<ScreenshotView> {
    Seq::new(shots.len(), |i: int| shots[i]@)
}

/// The file names of a list of screenshots.
pub open spec fn filenames(shots: Seq<ScreenshotView>) -> Seq<Seq<char>> {
    Seq::new(shots.len(), |i: int| shots[i].filename)
}

/// An application that owns screenshots.
#[derive(Debug, Default, PartialEq, Eq)]
pub struct SteamApp {
    /// The application's id; `ALL_APPS_ID` stands for all of them.
    pub id: String,
    /// The application's title.
    pub title: String,
}

/// An application as plain values.
pub ghost struct SteamAppView {
    pub id: Seq<char>,
    pub title: Seq<char>,
}

impl View for SteamApp {
    type V = SteamAppView;

    open spec fn view(&self) -> SteamAppView {
        SteamAppView { id: self.id@, title: self.title@ }
    }
}

impl Clone for SteamApp {
    fn clone(&self) -> (r: Self)
        ensures
            r@ == self@,
    {
        SteamApp { id: self.id.clone(), title: self.title.clone() }
    }
}

/// How an application is shown: `ALL` for the one that stands for all,
/// else its title followed by its id in round brackets.
pub open spec fn display_of(app: SteamAppView) -> Seq<char> {
    if app.id == ALL_APPS_ID@ {
        "ALL"@
    } else {
        app.title + " ("@ + app.id + ")"@
    }
}

/// The entry that stands for all applications.
pub open spec fn all_apps() -> SteamAppView {
    SteamAppView { id: ALL_APPS_ID@, title: Seq::empty() }
}

impl SteamApp {
    /// The entry that stands for all applications.
    pub fn all() -> (r: SteamApp)
        ensures
            r@ == all_apps(),
    {
        SteamApp { id: String::from_str(ALL_APPS_ID), title: String::new() }
    }

    /// Whether this entry stands for all applications.
    pub fn is_all(&self) -> (r: bool)
        ensures
            r == (self@.id == ALL_APPS_ID@),
    {
        let all: String = String::from_str(ALL_APPS_ID);
        self.id == all
    }

    /// The text by which the application is shown and sorted.
    pub fn display(&self) -> (r: String)
        ensures
            r@ == display_of(self@),
    {
        if self.is_all() {
            String::from_str("ALL")
        } else {
            let mut text: String = self.title.clone();
            text.append(" (");
            text.append(self.id.as_str());
            text.append(")");
            text
        }
    }
}

} // verus!
