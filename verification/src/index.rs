//! The screenshot index: screenshots grouped by the application that owns
//! them, one per file name within a group, and the sorted lists made of it.

use vstd::prelude::*;
use crate::catalog::{title_or_unknown, Catalog};
use crate::order::{before, is_stable_order, key_views, lemma_stable_order_unique, names_position,
    stable_order};
use crate::text::{lemma_lex_less_asymmetric, lex_less};
use crate::paths::{app_id_of, filename_of, get_app_id, get_filename, PathError};
use crate::screenshot::{all_apps, display_of, filenames, shot_views, Screenshot, ScreenshotView, SteamApp,
    SteamAppView};

verus! {

/// The screenshots of one application.
#[derive(Debug, Default)]
pub struct AppScreenshots {
    /// The application's id.
    pub app_id: String,
    /// Its screenshots.
    pub images: Vec<Screenshot>,
}

/// The screenshots of one application as plain values.
pub ghost struct AppScreenshotsView {
    pub app_id: Seq<char>,
    pub images: Seq<ScreenshotView>,
}

impl View for AppScreenshots {
    type V = AppScreenshotsView;

    open spec fn view(&self) -> AppScreenshotsView {
        AppScreenshotsView { app_id: self.app_id@, images: shot_views(self.images@) }
    }
}

/// The views of a list of groups.
pub open spec fn group_views(groups: Seq<AppScreenshots>) -> Seq<AppScreenshotsView> {
    Seq::new(groups.len(), |g: int| groups[g]@)
}

/// No two groups share an id, every screenshot stands in the group of its
/// application, and no two screenshots of a group share a file name.
pub open spec fn well_formed(groups: Seq<AppScreenshotsView>) -> bool {
    &&& forall|g: int, h: int|
        0 <= g < h < groups.len() ==> #[trigger] groups[g].app_id != #[trigger] groups[h].app_id
    &&& forall|g: int, k: int|
        0 <= g < groups.len() && 0 <= k < groups[g].images.len() ==> (#[trigger] groups[g].images[k]).app_id
            == groups[g].app_id
    &&& forall|g: int|
        0 <= g < groups.len() ==> distinct_names(#[trigger] groups[g].images)
}

/// No two of the screenshots share a file name.
pub open spec fn distinct_names(images: Seq<ScreenshotView>) -> bool {
    forall|i: int, j: int|
        0 <= i < j < images.len() ==> #[trigger] images[i].filename != #[trigger] images[j].filename
}

/// Whether one of the groups belongs to the application `id`.
pub open spec fn has_group(groups: Seq<AppScreenshotsView>, id: Seq<char>) -> bool {
    exists|g: int| 0 <= g < groups.len() && #[trigger] groups[g].app_id == id
}

/// The place of the group of the application `id`.
pub open spec fn group_at(groups: Seq<AppScreenshotsView>, id: Seq<char>) -> int {
    choose|g: int| 0 <= g < groups.len() && #[trigger] groups[g].app_id == id
}

/// Whether one of the screenshots has the file name `name`.
pub open spec fn has_image(images: Seq<ScreenshotView>, name: Seq<char>) -> bool {
    exists|k: int| 0 <= k < images.len() && #[trigger] images[k].filename == name
}

/// The place of the screenshot with the file name `name`.
pub open spec fn image_at(images: Seq<ScreenshotView>, name: Seq<char>) -> int {
    choose|k: int| 0 <= k < images.len() && #[trigger] images[k].filename == name
}

/// A group's screenshots after `shot` is put in: it takes the place of the
/// one with its file name, or is added at the end.
pub open spec fn put_image(images: Seq<ScreenshotView>, shot: ScreenshotView) -> Seq<ScreenshotView> {
    if has_image(images, shot.filename) {
        images.update(image_at(images, shot.filename), shot)
    } else {
        images.push(shot)
    }
}

/// The groups after `shot` is put in: into the group of its application, or
/// into a new last group.
pub open spec fn put(groups: Seq<AppScreenshotsView>, shot: ScreenshotView) -> Seq<AppScreenshotsView> {
    if has_group(groups, shot.app_id) {
        let g = group_at(groups, shot.app_id);
        groups.update(
            g,
            AppScreenshotsView { app_id: groups[g].app_id, images: put_image(groups[g].images, shot) },
        )
    } else {
        groups.push(AppScreenshotsView { app_id: shot.app_id, images: seq![shot] })
    }
}

/// The screenshot that a path stands for, or why it stands for none. The
/// file name is looked for first.
pub open spec fn screenshot_at(path: Seq<char>) -> Result<ScreenshotView, PathError> {
    match filename_of(path) {
        None => Err(PathError::NoFileName),
        Some(filename) => match app_id_of(path) {
            None => Err(PathError::NoAppDirectory),
            Some(app_id) => Ok(ScreenshotView { filepath: path, filename, app_id }),
        },
    }
}

/// The groups after the screenshots at `paths` are put in, one after the
/// other, or the error of the first path that stands for none.
pub open spec fn gathered(groups: Seq<AppScreenshotsView>, paths: Seq<Seq<char>>) -> Result<
    Seq<AppScreenshotsView>,
    PathError,
>
    decreases paths.len(),
{
    if paths.len() == 0 {
        Ok(groups)
    } else {
        match gathered(groups, paths.drop_last()) {
            Err(e) => Err(e),
            Ok(before) => match screenshot_at(paths.last()) {
                Err(e) => Err(e),
                Ok(shot) => Ok(put(before, shot)),
            },
        }
    }
}

/// Where every path stands for a screenshot, gathering succeeds.
pub proof fn lemma_gathered_ok(groups: Seq<AppScreenshotsView>, paths: Seq<Seq<char>>)
    requires
        forall|j: int| 0 <= j < paths.len() ==> (#[trigger] screenshot_at(paths[j])).is_ok(),
    ensures
        gathered(groups, paths).is_ok(),
    decreases paths.len(),
{
    if paths.len() > 0 {
        let head = paths.drop_last();
        assert forall|j: int| 0 <= j < head.len() implies (#[trigger] screenshot_at(head[j])).is_ok() by {
            assert(head[j] == paths[j]);
        }
        lemma_gathered_ok(groups, head);
        assert(screenshot_at(paths[paths.len() - 1]).is_ok());
    }
}

/// Gathering fails with the error of the first path that stands for no
/// screenshot, whatever the groups hold.
pub proof fn lemma_gathered_err(groups: Seq<AppScreenshotsView>, paths: Seq<Seq<char>>, k: int, e: PathError)
    requires
        0 <= k < paths.len(),
        forall|j: int| 0 <= j < k ==> (#[trigger] screenshot_at(paths[j])).is_ok(),
        screenshot_at(paths[k]) == Err::<ScreenshotView, PathError>(e),
    ensures
        gathered(groups, paths) == Err::<Seq<AppScreenshotsView>, PathError>(e),
    decreases paths.len(),
{
    let head = paths.drop_last();
    if k == paths.len() - 1 {
        assert forall|j: int| 0 <= j < head.len() implies (#[trigger] screenshot_at(head[j])).is_ok() by {
            assert(head[j] == paths[j]);
        }
        lemma_gathered_ok(groups, head);
    } else {
        assert forall|j: int| 0 <= j < k implies (#[trigger] screenshot_at(head[j])).is_ok() by {
            assert(head[j] == paths[j]);
        }
        assert(head[k] == paths[k]);
        lemma_gathered_err(groups, head, k, e);
    }
}

/// All screenshots, group after group.
pub open spec fn all_images(groups: Seq<AppScreenshotsView>) -> Seq<ScreenshotView>
    decreases groups.len(),
{
    if groups.len() == 0 {
        Seq::empty()
    } else {
        all_images(groups.drop_last()) + groups.last().images
    }
}

/// The number of screenshots in all groups together.
pub open spec fn total_len(groups: Seq<AppScreenshotsView>) -> nat
    decreases groups.len(),
{
    if groups.len() == 0 {
        0
    } else {
        total_len(groups.drop_last()) + groups.last().images.len()
    }
}

/// The items at the given positions, in that order.
pub open spec fn arrange<T>(items: Seq<T>, order: Seq<usize>) -> Seq<T> {
    Seq::new(order.len(), |i: int| items[order[i] as int])
}

/// `output` holds the screenshots of `input`, each once, by file name from
/// the greatest down; screenshots with one file name keep their order.
pub open spec fn is_sorted_desc_of(input: Seq<ScreenshotView>, output: Seq<ScreenshotView>) -> bool {
    exists|order: Seq<usize>| #[trigger]
        is_stable_order(filenames(input), true, order) && output == arrange(input, order)
}

impl Screenshot {
    /// The screenshot at `filepath`, with the file name and the application
    /// that the path gives.
    pub fn from_path(filepath: String) -> (r: Result<Screenshot, PathError>)
        ensures
            match r {
                Ok(shot) => screenshot_at(filepath@) == Ok::<ScreenshotView, PathError>(shot@),
                Err(e) => screenshot_at(filepath@) == Err::<ScreenshotView, PathError>(e),
            },
    {
        let filename: String = match get_filename(&filepath) {
            Ok(name) => name,
            Err(e) => {
                return Err(e);
            },
        };
        let app_id: String = match get_app_id(&filepath) {
            Ok(id) => id,
            Err(e) => {
                return Err(e);
            },
        };
        Ok(Screenshot { filepath, filename, app_id })
    }
}

/// The screenshots by file name from the greatest down; screenshots with one
/// file name keep their order.
pub fn sort_by_filename_desc(shots: &Vec<Screenshot>) -> (out: Vec<Screenshot>)
    ensures
        is_sorted_desc_of(shot_views(shots@), shot_views(out@)),
        out@.len() == shots@.len(),
{
    let mut keys: Vec<String> = Vec::new();
    let mut i: usize = 0;
    while i < shots.len()
        invariant
            i <= shots.len(),
            keys@.len() == i,
            forall|k: int| 0 <= k < i ==> (#[trigger] keys@[k])@ == shots@[k]@.filename,
        decreases shots.len() - i,
    {
        keys.push(shots[i].filename.clone());
        i = i + 1;
    }
    proof {
        assert(key_views(keys@) =~= filenames(shot_views(shots@)));
    }
    let order: Vec<usize> = stable_order(&keys, true);
    let mut out: Vec<Screenshot> = Vec::new();
    let mut j: usize = 0;
    while j < order.len()
        invariant
            j <= order.len(),
            order@.len() == shots@.len(),
            forall|k: int| 0 <= k < order@.len() ==> 0 <= #[trigger] order@[k] < shots@.len(),
            out@.len() == j,
            forall|k: int| 0 <= k < j ==> (#[trigger] out@[k])@ == shots@[order@[k] as int]@,
        decreases order.len() - j,
    {
        out.push(shots[order[j]].clone());
        j = j + 1;
    }
    proof {
        assert(shot_views(out@) =~= arrange(shot_views(shots@), order@));
    }
    out
}


/// The screenshot index.
#[derive(Debug, Default)]
pub struct ImageIndex {
    /// One group for each application that owns a screenshot, in the order
    /// in which the applications were first met.
    pub groups: Vec<AppScreenshots>,
}

impl View for ImageIndex {
    type V = Seq<AppScreenshotsView>;

    open spec fn view(&self) -> Seq<AppScreenshotsView> {
        group_views(self.groups@)
    }
}

/// The place of the screenshot named `name` among `images`.
fn find_image(images: &Vec<Screenshot>, name: &String) -> (r: Option<usize>)
    ensures
        match r {
            Some(k) => k < images@.len() && images@[k as int]@.filename == name@,
            None => !has_image(shot_views(images@), name@),
        },
{
    let mut k: usize = 0;
    while k < images.len()
        invariant
            k <= images@.len(),
            forall|i: int| 0 <= i < k ==> (#[trigger] shot_views(images@)[i]).filename != name@,
        decreases images.len() - k,
    {
        if images[k].filename == *name {
            return Some(k);
        }
        k = k + 1;
    }
    None
}

impl ImageIndex {
    /// Whether the index is in order: see `well_formed`.
    pub open spec fn wf(&self) -> bool {
        well_formed(self@)
    }

    /// An index without screenshots.
    pub fn new() -> (r: ImageIndex)
        ensures
            r.wf(),
            r@ == Seq::<AppScreenshotsView>::empty(),
    {
        let r = ImageIndex { groups: Vec::new() };
        proof {
            assert(r@ =~= Seq::<AppScreenshotsView>::empty());
        }
        r
    }

    /// The place of the group of the application `id`.
    pub fn find_group(&self, id: &String) -> (r: Option<usize>)
        ensures
            match r {
                Some(g) => g < self@.len() && self@[g as int].app_id == id@ && forall|h: int|
                    0 <= h < g ==> (#[trigger] self@[h]).app_id != id@,
                None => !has_group(self@, id@),
            },
    {
        let mut g: usize = 0;
        while g < self.groups.len()
            invariant
                g <= self.groups@.len(),
                forall|i: int| 0 <= i < g ==> (#[trigger] self@[i]).app_id != id@,
            decreases self.groups.len() - g,
        {
            if self.groups[g].app_id == *id {
                return Some(g);
            }
            g = g + 1;
        }
        None
    }

    /// Puts a screenshot into the group of its application. Within the group
    /// it replaces the screenshot with the same file name, if there is one.
    pub fn insert(&mut self, shot: Screenshot)
        requires
            old(self).wf(),
        ensures
            final(self).wf(),
            final(self)@ == put(old(self)@, shot@),
    {
        let ghost before = self@;
        match self.find_group(&shot.app_id) {
            Some(g) => {
                proof {
                    assert(has_group(before, shot@.app_id));
                    assert(group_at(before, shot@.app_id) == g);
                }
                let group: AppScreenshots = self.groups.remove(g);
                let ghost old_images = group@.images;
                let mut images: Vec<Screenshot> = group.images;
                match find_image(&images, &shot.filename) {
                    Some(k) => {
                        proof {
                            assert(shot_views(images@)[k as int].filename == shot@.filename);
                            assert(has_image(old_images, shot@.filename));
                            assert(distinct_names(before[g as int].images));
                            assert(image_at(old_images, shot@.filename) == k);
                        }
                        let replaced: Screenshot = images.remove(k);
                        images.insert(k, shot);
                        proof {
                            assert(shot_views(images@) =~= old_images.update(k as int, shot@));
                        }
                    },
                    None => {
                        images.push(shot);
                        proof {
                            assert(shot_views(images@) =~= old_images.push(shot@));
                        }
                    },
                }
                let next: AppScreenshots = AppScreenshots { app_id: group.app_id, images };
                proof {
                    assert(next@.images == put_image(old_images, shot@));
                    assert(next@.app_id == before[g as int].app_id);
                }
                self.groups.insert(g, next);
                proof {
                    assert(self@ =~= before.update(g as int, next@));
                    assert(distinct_names(next@.images));
                    assert(well_formed(self@));
                }
            },
            None => {
                let app_id: String = shot.app_id.clone();
                let mut images: Vec<Screenshot> = Vec::new();
                images.push(shot);
                let next: AppScreenshots = AppScreenshots { app_id, images };
                proof {
                    assert(next@.images =~= seq![shot@]);
                }
                self.groups.push(next);
                proof {
                    assert(self@ =~= before.push(next@));
                    assert(distinct_names(next@.images));
                    assert(well_formed(self@));
                }
            },
        }
    }

    /// Puts in the screenshot at `filepath`. A path that names no file two
    /// levels below an application's directory is refused, and the index
    /// stays as it was.
    pub fn add_path(&mut self, filepath: String) -> (r: Result<(), PathError>)
        requires
            old(self).wf(),
        ensures
            final(self).wf(),
            match r {
                Ok(_) => screenshot_at(filepath@).is_ok() && final(self)@ == put(
                    old(self)@,
                    screenshot_at(filepath@).unwrap(),
                ),
                Err(e) => screenshot_at(filepath@) == Err::<ScreenshotView, PathError>(e) && final(self)@
                    == old(self)@,
            },
    {
        match Screenshot::from_path(filepath) {
            Ok(shot) => {
                self.insert(shot);
                Ok(())
            },
            Err(e) => Err(e),
        }
    }

    /// Puts in the screenshots at `paths`, one after the other. Where a
    /// path is refused, nothing is put in: the first such path gives the
    /// error, and the index stays as it was.
    pub fn gather_images(&mut self, paths: &Vec<String>) -> (r: Result<(), PathError>)
        requires
            old(self).wf(),
        ensures
            final(self).wf(),
            match r {
                Ok(_) => gathered(old(self)@, key_views(paths@)) == Ok::<Seq<AppScreenshotsView>, PathError>(
                    final(self)@,
                ),
                Err(e) => gathered(old(self)@, key_views(paths@)) == Err::<Seq<AppScreenshotsView>, PathError>(
                    e,
                ) && *final(self) == *old(self),
            },
    {
        let ghost start = self@;
        let ghost all = key_views(paths@);
        let mut shots: Vec<Screenshot> = Vec::new();
        let mut i: usize = 0;
        while i < paths.len()
            invariant
                i <= paths@.len(),
                all == key_views(paths@),
                *self == *old(self),
                self.wf(),
                start == self@,
                shots@.len() == i,
                forall|k: int|
                    0 <= k < i ==> #[trigger] screenshot_at(all[k]) == Ok::<ScreenshotView, PathError>(shots@[k]@),
            decreases paths.len() - i,
        {
            match Screenshot::from_path(paths[i].clone()) {
                Ok(shot) => {
                    shots.push(shot);
                },
                Err(e) => {
                    proof {
                        lemma_gathered_err(start, all, i as int, e);
                    }
                    return Err(e);
                },
            }
            i = i + 1;
        }
        let mut j: usize = 0;
        proof {
            assert(all.take(0) =~= Seq::<Seq<char>>::empty());
        }
        while j < shots.len()
            invariant
                j <= shots@.len(),
                shots@.len() == all.len(),
                start == old(self)@,
                self.wf(),
                forall|k: int|
                    0 <= k < all.len() ==> #[trigger] screenshot_at(all[k]) == Ok::<ScreenshotView, PathError>(
                        shots@[k]@,
                    ),
                gathered(start, all.take(j as int)) == Ok::<Seq<AppScreenshotsView>, PathError>(self@),
            decreases shots.len() - j,
        {
            proof {
                assert(all.take(j + 1).drop_last() =~= all.take(j as int));
                assert(all.take(j + 1).last() == all[j as int]);
            }
            self.insert(shots[j].clone());
            j = j + 1;
        }
        proof {
            assert(all.take(j as int) =~= all);
        }
        Ok(())
    }
}

/// The sorted lists made of the index.
#[derive(Debug, Default)]
pub struct Screenshots {
    /// For each application its screenshots, by file name from the greatest
    /// down.
    pub sorted_by_app: Vec<AppScreenshots>,
    /// All screenshots, by file name from the greatest down.
    pub sorted_all: Vec<Screenshot>,
}

/// The applications of the groups, each with the title that the catalog
/// gives it.
pub open spec fn app_entries(groups: Seq<AppScreenshotsView>, catalog: Seq<(Seq<char>, Seq<char>)>) -> Seq<
    SteamAppView,
> {
    Seq::new(
        groups.len(),
        |g: int| SteamAppView { id: groups[g].app_id, title: title_or_unknown(catalog, groups[g].app_id) },
    )
}

/// The views of a list of applications.
pub open spec fn app_views(apps: Seq<SteamApp>) -> Seq<SteamAppView> {
    Seq::new(apps.len(), |i: int| apps[i]@)
}

/// The texts by which the applications are shown.
pub open spec fn displays(apps: Seq<SteamAppView>) -> Seq<Seq<char>> {
    Seq::new(apps.len(), |i: int| display_of(apps[i]))
}

/// `list` starts with the entry for all applications; after it come the
/// applications of `apps`, each once, by their shown text from the least up,
/// those with one text in the order they had.
pub open spec fn is_app_list(apps: Seq<SteamAppView>, list: Seq<SteamAppView>) -> bool {
    &&& list.len() == apps.len() + 1
    &&& list[0] == all_apps()
    &&& exists|order: Seq<usize>| #[trigger]
        is_stable_order(displays(apps), false, order) && list.skip(1) == arrange(apps, order)
}

/// A copy of the screenshots.
pub fn clone_shots(shots: &Vec<Screenshot>) -> (out: Vec<Screenshot>)
    ensures
        shot_views(out@) == shot_views(shots@),
{
    let mut out: Vec<Screenshot> = Vec::new();
    let mut i: usize = 0;
    while i < shots.len()
        invariant
            i <= shots@.len(),
            out@.len() == i,
            forall|k: int| 0 <= k < i ==> (#[trigger] out@[k])@ == shots@[k]@,
        decreases shots.len() - i,
    {
        out.push(shots[i].clone());
        i = i + 1;
    }
    proof {
        assert(shot_views(out@) =~= shot_views(shots@));
    }
    out
}

impl ImageIndex {
    /// The sorted lists: each application's screenshots, and all screenshots
    /// together, by file name from the greatest down.
    pub fn get_images(&self) -> (r: Screenshots)
        ensures
            r.sorted_by_app@.len() == self@.len(),
            forall|g: int|
                0 <= g < self@.len() ==> (#[trigger] r.sorted_by_app@[g])@.app_id == self@[g].app_id
                    && is_sorted_desc_of(self@[g].images, r.sorted_by_app@[g]@.images),
            is_sorted_desc_of(all_images(self@), shot_views(r.sorted_all@)),
            r.sorted_all@.len() == total_len(self@),
    {
        let mut sorted_by_app: Vec<AppScreenshots> = Vec::new();
        let mut flat: Vec<Screenshot> = Vec::new();
        let mut g: usize = 0;
        proof {
            assert(shot_views(flat@) =~= all_images(self@.take(0)));
        }
        while g < self.groups.len()
            invariant
                g <= self.groups@.len(),
                sorted_by_app@.len() == g,
                forall|h: int|
                    0 <= h < g ==> (#[trigger] sorted_by_app@[h])@.app_id == self@[h].app_id
                        && is_sorted_desc_of(self@[h].images, sorted_by_app@[h]@.images),
                shot_views(flat@) == all_images(self@.take(g as int)),
            decreases self.groups.len() - g,
        {
            let images: &Vec<Screenshot> = &self.groups[g].images;
            let ghost flat_before = shot_views(flat@);
            let mut k: usize = 0;
            while k < images.len()
                invariant
                    k <= images@.len(),
                    flat_before.len() + k == flat@.len(),
                    forall|i: int| 0 <= i < flat_before.len() ==> (#[trigger] flat@[i])@ == flat_before[i],
                    forall|i: int| 0 <= i < k ==> (#[trigger] flat@[flat_before.len() + i])@ == images@[i]@,
                decreases images.len() - k,
            {
                flat.push(images[k].clone());
                k = k + 1;
            }
            proof {
                assert forall|i: int| 0 <= i < flat@.len() implies shot_views(flat@)[i] == (flat_before
                    + shot_views(images@))[i] by {
                    if i >= flat_before.len() {
                        assert(flat@[flat_before.len() + (i - flat_before.len())]@ == images@[i
                            - flat_before.len()]@);
                    }
                }
                assert(shot_views(flat@) =~= flat_before + shot_views(images@));
                assert(self@.take(g + 1).drop_last() =~= self@.take(g as int));
                assert(self@.take(g + 1).last() == self@[g as int]);
            }
            let sorted: Vec<Screenshot> = sort_by_filename_desc(images);
            sorted_by_app.push(AppScreenshots { app_id: self.groups[g].app_id.clone(), images: sorted });
            g = g + 1;
        }
        proof {
            assert(self@.take(g as int) =~= self@);
            lemma_all_images_len(self@);
        }
        let sorted_all: Vec<Screenshot> = sort_by_filename_desc(&flat);
        Screenshots { sorted_by_app, sorted_all }
    }

    /// The list of applications to choose from: first the entry for all of
    /// them, then each application that owns a screenshot, with its title
    /// from the catalog, by shown text from the least up.
    pub fn get_steam_apps(&self, catalog: &Catalog) -> (r: Vec<SteamApp>)
        ensures
            is_app_list(app_entries(self@, catalog@), app_views(r@)),
    {
        let ghost entries = app_entries(self@, catalog@);
        let mut apps: Vec<SteamApp> = Vec::new();
        let mut keys: Vec<String> = Vec::new();
        let mut g: usize = 0;
        while g < self.groups.len()
            invariant
                g <= self.groups@.len(),
                entries == app_entries(self@, catalog@),
                apps@.len() == g,
                keys@.len() == g,
                forall|h: int| 0 <= h < g ==> (#[trigger] apps@[h])@ == entries[h],
                forall|h: int| 0 <= h < g ==> (#[trigger] keys@[h])@ == display_of(entries[h]),
            decreases self.groups.len() - g,
        {
            let id: String = self.groups[g].app_id.clone();
            let title: String = catalog.title_or_unknown(&id);
            let app: SteamApp = SteamApp { id, title };
            keys.push(app.display());
            apps.push(app);
            g = g + 1;
        }
        proof {
            assert(key_views(keys@) =~= displays(entries));
            assert(app_views(apps@) =~= entries);
        }
        let order: Vec<usize> = stable_order(&keys, false);
        let mut list: Vec<SteamApp> = Vec::new();
        list.push(SteamApp::all());
        let mut j: usize = 0;
        while j < order.len()
            invariant
                j <= order.len(),
                order@.len() == apps@.len(),
                forall|k: int| 0 <= k < order@.len() ==> 0 <= #[trigger] order@[k] < apps@.len(),
                list@.len() == j + 1,
                list@[0]@ == all_apps(),
                forall|k: int| 0 <= k < j ==> (#[trigger] list@[k + 1])@ == apps@[order@[k] as int]@,
            decreases order.len() - j,
        {
            list.push(apps[order[j]].clone());
            j = j + 1;
        }
        proof {
            assert(app_views(list@).skip(1) =~= arrange(entries, order@));
        }
        list
    }
}

/// The list of all screenshots is as long as the groups are together.
pub proof fn lemma_all_images_len(groups: Seq<AppScreenshotsView>)
    ensures
        all_images(groups).len() == total_len(groups),
    decreases groups.len(),
{
    if groups.len() > 0 {
        lemma_all_images_len(groups.drop_last());
    }
}


/// `shot` is the screenshot at place `k` of group `g`.
pub open spec fn in_group(groups: Seq<AppScreenshotsView>, g: int, k: int, shot: ScreenshotView) -> bool {
    0 <= g < groups.len() && 0 <= k < groups[g].images.len() && groups[g].images[k] == shot
}

/// `shot` stands at some place of some group.
pub open spec fn has_place(groups: Seq<AppScreenshotsView>, shot: ScreenshotView) -> bool {
    exists|g: int, k: int| in_group(groups, g, k, shot)
}

/// Each entry of the list of all screenshots is a screenshot of some group.
pub proof fn lemma_all_images_member(groups: Seq<AppScreenshotsView>, n: int)
    requires
        0 <= n < all_images(groups).len(),
    ensures
        has_place(groups, all_images(groups)[n]),
    decreases groups.len(),
{
    let head = groups.drop_last();
    if n < all_images(head).len() {
        lemma_all_images_member(head, n);
        let (g, k) = choose|g: int, k: int| in_group(head, g, k, all_images(head)[n]);
        assert(in_group(groups, g, k, all_images(groups)[n]));
    } else {
        let g = groups.len() - 1;
        let k = n - all_images(head).len();
        assert(in_group(groups, g, k, all_images(groups)[n]));
    }
}

/// Where the screenshot at place `k` of group `g` stands in the list of all
/// screenshots.
pub proof fn lemma_group_member_in_all_images(groups: Seq<AppScreenshotsView>, g: int, k: int)
    requires
        0 <= g < groups.len(),
        0 <= k < groups[g].images.len(),
    ensures
        all_images(groups.take(g)).len() + k < all_images(groups).len(),
        all_images(groups)[all_images(groups.take(g)).len() + k] == groups[g].images[k],
    decreases groups.len(),
{
    let head = groups.drop_last();
    if g == groups.len() - 1 {
        assert(groups.take(g) =~= head);
    } else {
        lemma_group_member_in_all_images(head, g, k);
        assert(head.take(g) =~= groups.take(g));
    }
}

/// The sorted list of all screenshots is as long as the groups are together,
/// each of its screenshots stands in exactly one place of one group, and
/// each screenshot of a group stands in the list.
pub proof fn lemma_flat_covers_groups(groups: Seq<AppScreenshotsView>, flat: Seq<ScreenshotView>)
    requires
        well_formed(groups),
        is_sorted_desc_of(all_images(groups), flat),
    ensures
        flat.len() == total_len(groups),
        forall|i: int| 0 <= i < flat.len() ==> has_place(groups, #[trigger] flat[i]),
        forall|shot: ScreenshotView, g: int, k: int, h: int, l: int|
            #[trigger] in_group(groups, g, k, shot) && #[trigger] in_group(groups, h, l, shot) ==> g == h && k
                == l,
        forall|shot: ScreenshotView, g: int, k: int| #[trigger]
            in_group(groups, g, k, shot) ==> flat.contains(shot),
{
    let all = all_images(groups);
    let order = choose|order: Seq<usize>| #[trigger]
        is_stable_order(filenames(all), true, order) && flat == arrange(all, order);
    lemma_all_images_len(groups);
    assert forall|i: int| 0 <= i < flat.len() implies has_place(groups, #[trigger] flat[i]) by {
        assert(0 <= order[i] < all.len());
        assert(flat[i] == all[order[i] as int]);
        lemma_all_images_member(groups, order[i] as int);
    }
    assert forall|shot: ScreenshotView, g: int, k: int| #[trigger]
        in_group(groups, g, k, shot) implies flat.contains(shot) by {
        lemma_group_member_in_all_images(groups, g, k);
        let n = all_images(groups.take(g)).len() + k;
        assert(names_position(order, n));
        let i = choose|i: int| 0 <= i < order.len() && #[trigger] order[i] == n;
        assert(flat[i] == shot);
    }
    assert forall|shot: ScreenshotView, g: int, k: int, h: int, l: int|
        #[trigger] in_group(groups, g, k, shot) && #[trigger] in_group(groups, h, l, shot) implies g == h
        && k == l by {
        assert(groups[g].images[k].app_id == groups[g].app_id);
        assert(groups[h].images[l].app_id == groups[h].app_id);
        if g < h {
            assert(groups[g].app_id != groups[h].app_id);
        } else if h < g {
            assert(groups[h].app_id != groups[g].app_id);
        } else {
            assert(distinct_names(groups[g].images));
            if k < l {
                assert(groups[g].images[k].filename != groups[g].images[l].filename);
            } else if l < k {
                assert(groups[g].images[l].filename != groups[g].images[k].filename);
            }
        }
    }
}

/// In a sorted list no screenshot stands before one with a greater file
/// name, and screenshots with one file name stand as they stood in what was
/// sorted: `order` says where each came from.
pub proof fn lemma_sort_is_descending_and_stable(input: Seq<ScreenshotView>, output: Seq<ScreenshotView>)
    requires
        is_sorted_desc_of(input, output),
    ensures
        output.len() == input.len(),
        forall|i: int, j: int|
            0 <= i < j < output.len() ==> !lex_less(#[trigger] output[i].filename, #[trigger] output[j].filename),
        exists|order: Seq<usize>|
            {
                &&& order.len() == output.len()
                &&& forall|i: int|
                    0 <= i < output.len() ==> 0 <= #[trigger] order[i] < input.len() && output[i]
                        == input[order[i] as int]
                &&& forall|i: int, j: int|
                    0 <= i < j < output.len() ==> #[trigger] order[i] != #[trigger] order[j]
                &&& forall|i: int, j: int|
                    0 <= i < j < output.len() && output[i].filename == output[j].filename
                        ==> #[trigger] order[i] < #[trigger] order[j]
            },
{
    let keys = filenames(input);
    let order = choose|order: Seq<usize>| #[trigger]
        is_stable_order(keys, true, order) && output == arrange(input, order);
    assert forall|i: int, j: int| 0 <= i < j < output.len() implies !lex_less(
        #[trigger] output[i].filename,
        #[trigger] output[j].filename,
    ) by {
        assert(!before(keys[order[j] as int], keys[order[i] as int], true));
    }
    assert forall|i: int, j: int|
        0 <= i < j < output.len() && output[i].filename == output[j].filename implies #[trigger] order[i]
        < #[trigger] order[j] by {
        if lex_less(output[i].filename, output[j].filename) {
            lemma_lex_less_asymmetric(output[i].filename, output[j].filename);
        }
        assert(!before(keys[order[i] as int], keys[order[j] as int], true));
    }
}


/// The list of applications holds one entry for each application that owns
/// a screenshot, after the entry for all: every entry after the first is a
/// group's application with its title from the catalog, every group has its
/// entry, and no two entries after the first share an id.
pub proof fn lemma_one_entry_per_application(
    groups: Seq<AppScreenshotsView>,
    catalog: Seq<(Seq<char>, Seq<char>)>,
    list: Seq<SteamAppView>,
)
    requires
        well_formed(groups),
        is_app_list(app_entries(groups, catalog), list),
    ensures
        list.len() == groups.len() + 1,
        list[0] == all_apps(),
        forall|i: int| 1 <= i < list.len() ==> app_entries(groups, catalog).contains(#[trigger] list[i]),
        forall|g: int| 0 <= g < groups.len() ==> list.skip(1).contains(#[trigger] app_entries(groups, catalog)[g]),
        forall|i: int, j: int| 1 <= i < j < list.len() ==> #[trigger] list[i].id != #[trigger] list[j].id,
{
    let entries = app_entries(groups, catalog);
    let order = choose|order: Seq<usize>| #[trigger]
        is_stable_order(displays(entries), false, order) && list.skip(1) == arrange(entries, order);
    assert forall|i: int| 1 <= i < list.len() implies #[trigger] list[i] == entries[order[i - 1] as int] by {
        assert(list[i] == list.skip(1)[i - 1]);
    }
    assert forall|i: int| 1 <= i < list.len() implies entries.contains(#[trigger] list[i]) by {
        assert(0 <= order[i - 1] < entries.len());
    }
    assert forall|g: int| 0 <= g < groups.len() implies list.skip(1).contains(#[trigger] entries[g]) by {
        assert(names_position(order, g));
        let i = choose|i: int| 0 <= i < order.len() && #[trigger] order[i] == g;
        assert(list.skip(1)[i] == entries[g]);
    }
    assert forall|i: int, j: int| 1 <= i < j < list.len() implies #[trigger] list[i].id != #[trigger] list[
        j
    ].id by {
        let x = order[i - 1] as int;
        let y = order[j - 1] as int;
        assert(order[i - 1] != order[j - 1]);
        assert(0 <= x < groups.len() && 0 <= y < groups.len());
        assert(list[i].id == groups[x].app_id);
        assert(list[j].id == groups[y].app_id);
        if x < y {
            assert(groups[x].app_id != groups[y].app_id);
        } else {
            assert(groups[y].app_id != groups[x].app_id);
        }
    }
}

/// Sorting has one result: two lists that both are the sorted form of the
/// same screenshots are the same list.
pub proof fn lemma_sorted_unique(
    input: Seq<ScreenshotView>,
    first: Seq<ScreenshotView>,
    second: Seq<ScreenshotView>,
)
    requires
        is_sorted_desc_of(input, first),
        is_sorted_desc_of(input, second),
    ensures
        first == second,
{
    let keys = filenames(input);
    let a = choose|order: Seq<usize>| #[trigger]
        is_stable_order(keys, true, order) && first == arrange(input, order);
    let b = choose|order: Seq<usize>| #[trigger]
        is_stable_order(keys, true, order) && second == arrange(input, order);
    lemma_stable_order_unique(keys, true, a, b);
}


/// Whether no two of the screenshots share a file name and each belongs to
/// the application `id`.
fn images_in_order(images: &Vec<Screenshot>, id: &String) -> (r: bool)
    ensures
        r == (distinct_names(shot_views(images@)) && forall|k: int|
            0 <= k < images@.len() ==> (#[trigger] shot_views(images@)[k]).app_id == id@),
{
    let ghost views = shot_views(images@);
    let mut j: usize = 0;
    while j < images.len()
        invariant
            j <= images@.len(),
            views == shot_views(images@),
            forall|k: int| 0 <= k < j ==> (#[trigger] views[k]).app_id == id@,
            forall|a: int, b: int| 0 <= a < b < j ==> #[trigger] views[a].filename != #[trigger] views[b].filename,
        decreases images.len() - j,
    {
        if !(images[j].app_id == *id) {
            proof {
                assert(views[j as int].app_id != id@);
            }
            return false;
        }
        let mut i: usize = 0;
        while i < j
            invariant
                i <= j < images@.len(),
                views == shot_views(images@),
                forall|a: int| 0 <= a < i ==> #[trigger] views[a].filename != views[j as int].filename,
            decreases j - i,
        {
            if images[i].filename == images[j].filename {
                proof {
                    assert(views[i as int].filename == views[j as int].filename);
                }
                return false;
            }
            i = i + 1;
        }
        j = j + 1;
    }
    true
}

impl ImageIndex {
    /// Whether the index is in order. An index that only `new`, `insert`,
    /// `add_path` and `gather_images` have made or changed always is.
    pub fn is_well_formed(&self) -> (r: bool)
        ensures
            r == self.wf(),
    {
        let ghost views = self@;
        let mut h: usize = 0;
        while h < self.groups.len()
            invariant
                h <= self.groups@.len(),
                views == self@,
                forall|a: int, b: int| 0 <= a < b < h ==> #[trigger] views[a].app_id != #[trigger] views[b].app_id,
                forall|g: int, k: int|
                    0 <= g < h && 0 <= k < views[g].images.len() ==> (#[trigger] views[g].images[k]).app_id
                        == views[g].app_id,
                forall|g: int| 0 <= g < h ==> distinct_names(#[trigger] views[g].images),
            decreases self.groups.len() - h,
        {
            if !images_in_order(&self.groups[h].images, &self.groups[h].app_id) {
                proof {
                    if distinct_names(views[h as int].images) {
                        let k = choose|k: int|
                            0 <= k < views[h as int].images.len() && (#[trigger] views[h as int].images[k]).app_id
                                != views[h as int].app_id;
                        assert(views[h as int].images[k].app_id != views[h as int].app_id);
                    }
                }
                return false;
            }
            let mut g: usize = 0;
            while g < h
                invariant
                    g <= h < self.groups@.len(),
                    views == self@,
                    forall|a: int| 0 <= a < g ==> #[trigger] views[a].app_id != views[h as int].app_id,
                decreases h - g,
            {
                if self.groups[g].app_id == self.groups[h].app_id {
                    proof {
                        assert(views[g as int].app_id == views[h as int].app_id);
                    }
                    return false;
                }
                g = g + 1;
            }
            h = h + 1;
        }
        true
    }
}

} // verus!
