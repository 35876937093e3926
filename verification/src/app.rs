//! The application's state: the index, the catalog and the server's address.

use vstd::prelude::*;
use crate::catalog::{entries_of, Catalog};
use crate::index::{all_images, app_entries, app_views, gathered, is_app_list, is_sorted_desc_of,
    total_len, AppScreenshotsView, ImageIndex, Screenshots};
use crate::order::key_views;
use crate::paths::PathError;
use crate::screenshot::{shot_views, Screenshot, SteamApp};
use crate::share::{base_url, base_url_of, cleared, is_token_text, publish_to, share_url,
    SharedScreenshot};

verus! {

/// The application's state.
#[derive(Debug, Default)]
pub struct App {
    /// The screenshots that were found.
    pub images: ImageIndex,
    /// The titles of the applications.
    pub app_ids: Catalog,
    /// The address of this machine in the local network.
    pub server_ip: String,
    /// The port at which the server listens.
    pub server_port: u16,
    /// The address under which the server is reached.
    pub base_url: String,
}

impl App {
    /// Whether the state is in order: the index is.
    pub open spec fn wf(&self) -> bool {
        self.images.wf()
    }

    /// The state at the start: nothing indexed, no titles, no address.
    pub fn new() -> (r: App)
        ensures
            r.wf(),
            r.images@.len() == 0,
            r.app_ids@.len() == 0,
            r.server_ip@.len() == 0,
            r.server_port == 0,
            r.base_url@.len() == 0,
    {
        App {
            images: ImageIndex::new(),
            app_ids: Catalog::new(),
            server_ip: String::new(),
            server_port: 0,
            base_url: String::new(),
        }
    }

    /// Takes the machine's address and the server's port, and makes the
    /// address under which the server is reached.
    pub fn prepare_server(&mut self, ip: String, port: u16)
        ensures
            final(self).server_ip@ == ip@,
            final(self).server_port == port,
            final(self).base_url@ == base_url_of(ip@, port),
            final(self).images == old(self).images,
            final(self).app_ids == old(self).app_ids,
    {
        self.base_url = base_url(ip.as_str(), port);
        self.server_ip = ip;
        self.server_port = port;
    }

    /// Adds the catalog's applications to the titles.
    pub fn load_app_ids(&mut self, apps: &Vec<(u32, String)>)
        ensures
            final(self).app_ids@ == old(self).app_ids@ + entries_of(apps@),
            final(self).images == old(self).images,
            final(self).base_url == old(self).base_url,
            final(self).server_ip == old(self).server_ip,
            final(self).server_port == old(self).server_port,
    {
        self.app_ids.load(apps);
    }

    /// Makes the index anew from the screenshots at `paths`: what it held
    /// before is gone, and without paths it is empty. Where a path names no
    /// file two levels below an application's directory, the first such
    /// path gives the error and the index stays as it was.
    pub fn gather_images(&mut self, paths: &Vec<String>) -> (r: Result<(), PathError>)
        requires
            old(self).wf(),
        ensures
            final(self).wf(),
            final(self).app_ids == old(self).app_ids,
            final(self).base_url == old(self).base_url,
            final(self).server_ip == old(self).server_ip,
            final(self).server_port == old(self).server_port,
            match r {
                Ok(_) => gathered(Seq::empty(), key_views(paths@)) == Ok::<Seq<AppScreenshotsView>, PathError>(
                    final(self).images@,
                ),
                Err(e) => gathered(Seq::empty(), key_views(paths@)) == Err::<
                    Seq<AppScreenshotsView>,
                    PathError,
                >(e) && final(self).images == old(self).images,
            },
    {
        let mut fresh: ImageIndex = ImageIndex::new();
        match fresh.gather_images(paths) {
            Ok(_) => {
                self.images = fresh;
                Ok(())
            },
            Err(e) => Err(e),
        }
    }

    /// What follows the catalog's arrival: its applications are added to the
    /// titles, then the index is made anew from the screenshots at `paths`.
    /// Where a path is refused, the index stays as it was.
    pub fn post_fetch(&mut self, apps: &Vec<(u32, String)>, paths: &Vec<String>) -> (r: Result<
        (),
        PathError,
    >)
        requires
            old(self).wf(),
        ensures
            final(self).wf(),
            final(self).app_ids@ == old(self).app_ids@ + entries_of(apps@),
            final(self).base_url == old(self).base_url,
            final(self).server_ip == old(self).server_ip,
            final(self).server_port == old(self).server_port,
            match r {
                Ok(_) => gathered(Seq::empty(), key_views(paths@)) == Ok::<Seq<AppScreenshotsView>, PathError>(
                    final(self).images@,
                ),
                Err(e) => gathered(Seq::empty(), key_views(paths@)) == Err::<
                    Seq<AppScreenshotsView>,
                    PathError,
                >(e) && final(self).images == old(self).images,
            },
    {
        self.load_app_ids(apps);
        self.gather_images(paths)
    }

    /// The sorted lists: each application's screenshots, and all screenshots
    /// together, by file name from the greatest down.
    pub fn get_images(&self) -> (r: Screenshots)
        ensures
            r.sorted_by_app@.len() == self.images@.len(),
            forall|g: int|
                0 <= g < self.images@.len() ==> (#[trigger] r.sorted_by_app@[g])@.app_id
                    == self.images@[g].app_id && is_sorted_desc_of(
                    self.images@[g].images,
                    r.sorted_by_app@[g]@.images,
                ),
            is_sorted_desc_of(all_images(self.images@), shot_views(r.sorted_all@)),
            r.sorted_all@.len() == total_len(self.images@),
    {
        self.images.get_images()
    }

    /// The list of applications to choose from: first the entry for all of
    /// them, then each application that owns a screenshot, by shown text.
    pub fn get_steam_apps(&self) -> (r: Vec<SteamApp>)
        ensures
            is_app_list(app_entries(self.images@, self.app_ids@), app_views(r@)),
    {
        self.images.get_steam_apps(&self.app_ids)
    }

    /// Publishes a screenshot behind a fresh token and returns the address
    /// under which it can be fetched: the server's address, then the token.
    pub fn share(&self, shared_image: &mut SharedScreenshot, screenshot: Screenshot) -> (url: String)
        ensures
            final(shared_image)@.is_some(),
            final(shared_image)@ == publish_to(
                old(shared_image)@,
                screenshot@.filepath,
                screenshot@.filename,
                final(shared_image)@.unwrap().token,
            ),
            is_token_text(final(shared_image)@.unwrap().token),
            url@ == self.base_url@ + final(shared_image)@.unwrap().token,
    {
        let token: String = shared_image.publish(&screenshot);
        share_url(self.base_url.as_str(), token.as_str())
    }

    /// Ends the sharing: the slot is emptied.
    pub fn stop_share(&self, shared_image: &mut SharedScreenshot)
        ensures
            final(shared_image)@ == cleared(old(shared_image)@),
            final(shared_image).filepath.is_none(),
            final(shared_image).filename.is_none(),
            final(shared_image).uuid.is_none(),
    {
        shared_image.clear();
    }
}

} // verus!
