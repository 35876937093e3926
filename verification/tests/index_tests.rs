use sharess::app::App;
use sharess::catalog::Catalog;
use sharess::index::{sort_by_filename_desc, ImageIndex};
use sharess::order::stable_order;
use sharess::paths::{get_app_id, get_filename, PathError};
use sharess::screenshot::{Screenshot, SteamApp};
use sharess::selection::step_index;
use sharess::text::{decimal, str_eq, str_less};

fn shot(app_id: &str, filename: &str) -> Screenshot {
    Screenshot {
        filepath: format!("/home/u/.steam/steam/userdata/1/760/remote/{}/screenshots/{}", app_id, filename),
        filename: filename.to_string(),
        app_id: app_id.to_string(),
    }
}

fn names(shots: &Vec<Screenshot>) -> Vec<String> {
    let mut out = Vec::new();
    for s in shots.iter() {
        out.push(s.filename.clone());
    }
    out
}

#[test]
fn app_id_is_the_directory_two_levels_up() {
    let path = String::from("/home/u/.steam/steam/userdata/1/760/remote/100/screenshots/a.jpg");
    assert_eq!(get_app_id(&path), Ok(String::from("100")));
    assert_eq!(get_filename(&path), Ok(String::from("a.jpg")));
    assert_eq!(get_app_id(&String::from("100/screenshots/a.jpg")), Ok(String::from("100")));
}

#[test]
fn shallow_paths_have_no_app_id() {
    assert_eq!(get_app_id(&String::from("a.jpg")), Err(PathError::NoAppDirectory));
    assert_eq!(get_app_id(&String::from("screenshots/a.jpg")), Err(PathError::NoAppDirectory));
    assert_eq!(get_app_id(&String::from("/screenshots/a.jpg")), Err(PathError::NoAppDirectory));
    assert_eq!(get_app_id(&String::from("")), Err(PathError::NoAppDirectory));
    assert_eq!(get_app_id(&String::from("../screenshots/a.jpg")), Err(PathError::NoAppDirectory));
    assert_eq!(get_app_id(&String::from("./screenshots/a.jpg")), Err(PathError::NoAppDirectory));
}

#[test]
fn paths_without_a_file_name_are_refused() {
    assert_eq!(get_filename(&String::from("100/screenshots/")), Err(PathError::NoFileName));
    assert_eq!(get_filename(&String::from("")), Err(PathError::NoFileName));
    assert_eq!(get_filename(&String::from("100/screenshots/..")), Err(PathError::NoFileName));
    assert_eq!(get_filename(&String::from("100/screenshots/.")), Err(PathError::NoFileName));
    assert_eq!(get_filename(&String::from("a.jpg")), Ok(String::from("a.jpg")));
    assert_eq!(get_filename(&String::from("x/...")), Ok(String::from("...")));
}

#[test]
fn screenshot_from_path_fills_all_fields() {
    let s = Screenshot::from_path(String::from("/r/100/screenshots/a.jpg")).unwrap();
    assert_eq!(s.filepath, "/r/100/screenshots/a.jpg");
    assert_eq!(s.filename, "a.jpg");
    assert_eq!(s.app_id, "100");
    assert_eq!(s.display(), "a.jpg");
    assert_eq!(Screenshot::from_path(String::from("a.jpg")), Err(PathError::NoAppDirectory));
    assert_eq!(Screenshot::from_path(String::from("100/screenshots/")), Err(PathError::NoFileName));
}

#[test]
fn strings_compare_by_their_characters() {
    assert!(str_less("a.jpg", "b.jpg"));
    assert!(!str_less("b.jpg", "a.jpg"));
    assert!(!str_less("a.jpg", "a.jpg"));
    assert!(str_less("a", "ab"));
    assert!(!str_less("ab", "a"));
    assert!(str_less("", "a"));
    assert!(!str_less("", ""));
    assert!(str_less("Z", "a"));
    assert!(str_less("z", "é"));
    assert!(str_eq("abc", "abc"));
    assert!(!str_eq("abc", "abd"));
    assert!(!str_eq("abc", "ab"));
}

#[test]
fn decimal_writes_numbers_without_leading_zeros() {
    assert_eq!(decimal(0), "0");
    assert_eq!(decimal(7), "7");
    assert_eq!(decimal(10), "10");
    assert_eq!(decimal(100), "100");
    assert_eq!(decimal(65535), "65535");
    assert_eq!(decimal(4294967295), "4294967295");
}

#[test]
fn stable_order_keeps_ties_in_place() {
    let keys = vec![
        String::from("b"),
        String::from("a"),
        String::from("c"),
        String::from("a"),
        String::from("b"),
    ];
    assert_eq!(stable_order(&keys, false), vec![1, 3, 0, 4, 2]);
    assert_eq!(stable_order(&keys, true), vec![2, 0, 4, 1, 3]);
    assert_eq!(stable_order(&Vec::new(), true), Vec::<usize>::new());
}

#[test]
fn sorting_is_descending_by_file_name() {
    let shots = vec![shot("1", "a.jpg"), shot("1", "c.jpg"), shot("1", "b.jpg")];
    let sorted = sort_by_filename_desc(&shots);
    assert_eq!(names(&sorted), vec!["c.jpg", "b.jpg", "a.jpg"]);
}

#[test]
fn sorting_is_stable() {
    let shots = vec![shot("1", "a.jpg"), shot("2", "b.jpg"), shot("3", "a.jpg"), shot("4", "b.jpg")];
    let sorted = sort_by_filename_desc(&shots);
    assert_eq!(names(&sorted), vec!["b.jpg", "b.jpg", "a.jpg", "a.jpg"]);
    let mut ids = Vec::new();
    for s in sorted.iter() {
        ids.push(s.app_id.clone());
    }
    assert_eq!(ids, vec!["2", "4", "1", "3"]);
}

#[test]
fn empty_index_gives_empty_lists() {
    let mut index = ImageIndex::new();
    assert_eq!(index.gather_images(&Vec::new()), Ok(()));
    let images = index.get_images();
    assert!(images.sorted_all.is_empty());
    assert!(images.sorted_by_app.is_empty());
    let apps = index.get_steam_apps(&Catalog::new());
    assert_eq!(apps.len(), 1);
    assert_eq!(apps[0], SteamApp::all());
}

#[test]
fn refresh_groups_and_sorts() {
    let mut app = App::new();
    let catalog = vec![(100u32, String::from("Game"))];
    let paths = vec![
        String::from("/home/u/.steam/steam/userdata/1/760/remote/100/screenshots/a.jpg"),
        String::from("/home/u/.steam/steam/userdata/1/760/remote/100/screenshots/b.jpg"),
    ];
    assert_eq!(app.post_fetch(&catalog, &paths), Ok(()));
    let apps = app.get_steam_apps();
    assert_eq!(apps.len(), 2);
    assert_eq!(apps[0].id, "0");
    assert_eq!(apps[0].title, "");
    assert_eq!(apps[0].display(), "ALL");
    assert_eq!(apps[1], SteamApp { id: String::from("100"), title: String::from("Game") });
    assert_eq!(apps[1].display(), "Game (100)");
    let images = app.get_images();
    assert_eq!(images.sorted_by_app.len(), 1);
    assert_eq!(images.sorted_by_app[0].app_id, "100");
    assert_eq!(names(&images.sorted_by_app[0].images), vec!["b.jpg", "a.jpg"]);
    assert_eq!(names(&images.sorted_all), vec!["b.jpg", "a.jpg"]);
    assert_eq!(images.sorted_all[0].filepath, paths[1]);
    assert_eq!(images.sorted_all[0].app_id, "100");
}

#[test]
fn flat_list_is_as_long_as_the_groups_together() {
    let mut index = ImageIndex::new();
    let paths = vec![
        String::from("/r/10/screenshots/x.jpg"),
        String::from("/r/20/screenshots/y.jpg"),
        String::from("/r/10/screenshots/z.jpg"),
        String::from("/r/30/screenshots/x.jpg"),
        String::from("/r/20/screenshots/a.jpg"),
    ];
    assert_eq!(index.gather_images(&paths), Ok(()));
    let images = index.get_images();
    let mut total = 0;
    for group in images.sorted_by_app.iter() {
        total += group.images.len();
        for s in group.images.iter() {
            assert_eq!(s.app_id, group.app_id);
        }
    }
    assert_eq!(images.sorted_all.len(), total);
    assert_eq!(total, 5);
    for s in images.sorted_all.iter() {
        let mut found = 0;
        for group in images.sorted_by_app.iter() {
            for t in group.images.iter() {
                if t == s {
                    found += 1;
                }
            }
        }
        assert_eq!(found, 1);
    }
    assert_eq!(names(&images.sorted_all), vec!["z.jpg", "y.jpg", "x.jpg", "x.jpg", "a.jpg"]);
    assert_eq!(images.sorted_all[2].app_id, "10");
    assert_eq!(images.sorted_all[3].app_id, "30");
    assert_eq!(names(&images.sorted_by_app[0].images), vec!["z.jpg", "x.jpg"]);
    assert_eq!(names(&images.sorted_by_app[1].images), vec!["y.jpg", "a.jpg"]);
    assert_eq!(names(&images.sorted_by_app[2].images), vec!["x.jpg"]);
}

#[test]
fn a_second_file_with_the_same_name_replaces_the_first() {
    let mut index = ImageIndex::new();
    let mut first = shot("100", "a.jpg");
    first.filepath = String::from("/one/100/screenshots/a.jpg");
    let mut second = shot("100", "a.jpg");
    second.filepath = String::from("/two/100/screenshots/a.jpg");
    index.insert(first);
    index.insert(shot("100", "b.jpg"));
    index.insert(second);
    assert_eq!(index.groups.len(), 1);
    assert_eq!(index.groups[0].images.len(), 2);
    assert_eq!(index.groups[0].images[0].filepath, "/two/100/screenshots/a.jpg");
    assert_eq!(index.find_group(&String::from("100")), Some(0));
    assert_eq!(index.find_group(&String::from("200")), None);
}

#[test]
fn a_malformed_path_fails_the_refresh() {
    let mut index = ImageIndex::new();
    let paths = vec![
        String::from("/r/10/screenshots/x.jpg"),
        String::from("x.jpg"),
        String::from("/r/10/screenshots/"),
    ];
    assert_eq!(index.gather_images(&paths), Err(PathError::NoAppDirectory));
    assert!(index.groups.is_empty());
    let mut other = ImageIndex::new();
    assert_eq!(other.add_path(String::from("/r/10/screenshots/")), Err(PathError::NoFileName));
    assert!(other.groups.is_empty());
    assert_eq!(other.add_path(String::from("/r/10/screenshots/x.jpg")), Ok(()));
    assert_eq!(other.groups.len(), 1);
}

#[test]
fn applications_are_listed_by_shown_text() {
    let mut app = App::new();
    let catalog = vec![
        (30u32, String::from("Alpha")),
        (10u32, String::from("Zeta")),
        (10u32, String::from("Beta")),
    ];
    let paths = vec![
        String::from("/r/10/screenshots/x.jpg"),
        String::from("/r/20/screenshots/y.jpg"),
        String::from("/r/30/screenshots/z.jpg"),
    ];
    assert_eq!(app.post_fetch(&catalog, &paths), Ok(()));
    let apps = app.get_steam_apps();
    let mut shown = Vec::new();
    for a in apps.iter() {
        shown.push(a.display());
    }
    assert_eq!(shown, vec!["ALL", "Alpha (30)", "Beta (10)", "None (20)"]);
}

#[test]
fn catalog_gives_the_last_title() {
    let mut catalog = Catalog::new();
    catalog.insert(String::from("1"), String::from("one"));
    catalog.insert_app(2, String::from("two"));
    catalog.insert(String::from("1"), String::from("uno"));
    assert_eq!(catalog.title(&String::from("1")), Some(String::from("uno")));
    assert_eq!(catalog.title(&String::from("2")), Some(String::from("two")));
    assert_eq!(catalog.title(&String::from("3")), None);
    assert_eq!(catalog.title_or_unknown(&String::from("3")), "None");
    assert_eq!(catalog.title_or_unknown(&String::from("2")), "two");
}

#[test]
fn shown_list_follows_the_chosen_application() {
    let mut index = ImageIndex::new();
    index.insert(shot("10", "a.jpg"));
    index.insert(shot("20", "b.jpg"));
    index.insert(shot("10", "c.jpg"));
    let images = index.get_images();
    let all = images.shown_for(&SteamApp::all()).unwrap();
    assert_eq!(names(&all), vec!["c.jpg", "b.jpg", "a.jpg"]);
    let ten = images.shown_for(&SteamApp { id: String::from("10"), title: String::from("x") }).unwrap();
    assert_eq!(names(&ten), vec!["c.jpg", "a.jpg"]);
    assert!(images.shown_for(&SteamApp { id: String::from("99"), title: String::new() }).is_none());
    assert_eq!(images.find_app(&String::from("20")), Some(1));
    assert!(SteamApp::all().is_all());
}

#[test]
fn selection_wraps_around() {
    assert_eq!(step_index(0, 3, true), 1);
    assert_eq!(step_index(2, 3, true), 0);
    assert_eq!(step_index(0, 3, false), 2);
    assert_eq!(step_index(2, 3, false), 1);
    assert_eq!(step_index(0, 1, true), 0);
    assert_eq!(step_index(0, 1, false), 0);
    assert_eq!(step_index(9, 3, true), 0);
    assert_eq!(step_index(9, 3, false), 0);
}

#[test]
fn an_index_made_by_inserting_is_in_order() {
    let mut index = ImageIndex::new();
    assert!(index.is_well_formed());
    index.insert(shot("10", "a.jpg"));
    index.insert(shot("20", "a.jpg"));
    index.insert(shot("10", "a.jpg"));
    index.insert(shot("10", "b.jpg"));
    assert!(index.is_well_formed());
}

#[test]
fn an_index_put_together_by_hand_may_be_out_of_order() {
    let mut twice = ImageIndex::new();
    twice.insert(shot("10", "a.jpg"));
    twice.groups[0].images.push(shot("10", "a.jpg"));
    assert!(!twice.is_well_formed());

    let mut stray = ImageIndex::new();
    stray.insert(shot("10", "a.jpg"));
    stray.groups[0].images.push(shot("20", "b.jpg"));
    assert!(!stray.is_well_formed());

    let mut split = ImageIndex::new();
    split.insert(shot("10", "a.jpg"));
    split.insert(shot("20", "b.jpg"));
    split.groups[1].app_id = String::from("10");
    split.groups[1].images[0].app_id = String::from("10");
    assert!(!split.is_well_formed());
}

#[test]
fn paths_with_an_empty_part_are_refused() {
    assert_eq!(get_app_id(&String::from("/x/100//a.jpg")), Err(PathError::NoAppDirectory));
    assert_eq!(get_app_id(&String::from("/x/100/./a.jpg")), Err(PathError::NoAppDirectory));
    assert_eq!(get_app_id(&String::from("/x/100/s/")), Err(PathError::NoAppDirectory));
    assert_eq!(get_app_id(&String::from("/x/100/s/.")), Err(PathError::NoAppDirectory));
    assert_eq!(get_app_id(&String::from("/x//s/a.jpg")), Err(PathError::NoAppDirectory));
    assert_eq!(get_app_id(&String::from("/x/../s/a.jpg")), Err(PathError::NoAppDirectory));
    assert_eq!(get_app_id(&String::from("/x/100/../a.jpg")), Ok(String::from("100")));
    assert_eq!(get_app_id(&String::from("//100/s/a.jpg")), Ok(String::from("100")));
    assert_eq!(
        Screenshot::from_path(String::from("/x/100//a.jpg")),
        Err(PathError::NoAppDirectory)
    );
}

#[test]
fn a_refresh_replaces_what_the_index_held() {
    let mut app = App::new();
    let first = vec![
        String::from("/r/10/screenshots/a.jpg"),
        String::from("/r/20/screenshots/b.jpg"),
    ];
    assert_eq!(app.gather_images(&first), Ok(()));
    assert_eq!(app.images.groups.len(), 2);
    let second = vec![String::from("/r/20/screenshots/c.jpg")];
    assert_eq!(app.gather_images(&second), Ok(()));
    assert_eq!(app.images.groups.len(), 1);
    assert_eq!(app.images.groups[0].app_id, "20");
    assert_eq!(names(&app.images.groups[0].images), vec!["c.jpg"]);
    assert_eq!(app.post_fetch(&Vec::new(), &Vec::new()), Ok(()));
    assert!(app.images.groups.is_empty());
    assert!(app.get_images().sorted_all.is_empty());
    assert_eq!(app.get_steam_apps().len(), 1);
}

#[test]
fn a_refused_path_leaves_the_index_as_it_was() {
    let mut app = App::new();
    let first = vec![String::from("/r/10/screenshots/a.jpg")];
    assert_eq!(app.gather_images(&first), Ok(()));
    let second = vec![
        String::from("/r/20/screenshots/b.jpg"),
        String::from("b.jpg"),
        String::from("/r/20/screenshots/"),
    ];
    assert_eq!(app.gather_images(&second), Err(PathError::NoAppDirectory));
    assert_eq!(app.images.groups.len(), 1);
    assert_eq!(app.images.groups[0].app_id, "10");
    assert_eq!(names(&app.images.groups[0].images), vec!["a.jpg"]);

    let mut index = ImageIndex::new();
    index.insert(shot("10", "a.jpg"));
    let third = vec![String::from("/r/30/screenshots/c.jpg"), String::from("/r/30/screenshots/")];
    assert_eq!(index.gather_images(&third), Err(PathError::NoFileName));
    assert_eq!(index.groups.len(), 1);
    assert_eq!(index.groups[0].images.len(), 1);
    assert_eq!(index.gather_images(&first), Ok(()));
    assert_eq!(index.gather_images(&vec![String::from("/r/30/screenshots/c.jpg")]), Ok(()));
    assert_eq!(index.groups.len(), 2);
}
