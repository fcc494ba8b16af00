use std::path::PathBuf;

use xdg::{
    join_path, list_files, list_files_once, read_file, split_path_list, BaseDirectories,
    BaseDirectoriesError, DesktopEntries, DirStatus, Permissions,
};

fn env(vars: &[(&str, &str)]) -> Vec<(String, String)> {
    vars.iter().map(|(k, v)| (k.to_string(), v.to_string())).collect()
}

fn strings(v: &[&str]) -> Vec<String> {
    v.iter().map(|s| s.to_string()).collect()
}

fn same_path(a: &str, b: &str) -> bool {
    PathBuf::from(a) == PathBuf::from(b)
}

fn dirs_at(home: &str, vars: &[(&str, &str)]) -> BaseDirectories {
    BaseDirectories::with_home_dir("", "", Some(home.to_string()), &env(vars))
}

#[test]
fn joining_follows_unix_paths() {
    assert_eq!(join_path("/a", "b"), "/a/b");
    assert_eq!(join_path("/a/", "b"), "/a/b");
    assert_eq!(join_path("/a", "/b"), "/b");
    assert_eq!(join_path("", "b"), "b");
    assert_eq!(join_path("a", ""), "a/");
}

#[test]
fn path_lists_keep_absolute_entries() {
    assert_eq!(split_path_list("/a:rel:/b::/c/"), strings(&["/a", "/b", "/c/"]));
    assert_eq!(split_path_list(""), Vec::<String>::new());
    assert_eq!(split_path_list("rel:other"), Vec::<String>::new());
}

#[test]
fn defaults_follow_home() {
    let d = dirs_at("/h", &[]);
    assert!(same_path(&d.get_data_home().unwrap(), "/h/.local/share"));
    assert!(same_path(&d.get_config_home().unwrap(), "/h/.config"));
    assert!(same_path(&d.get_cache_home().unwrap(), "/h/.cache"));
    assert!(same_path(&d.get_state_home().unwrap(), "/h/.local/state"));
    assert_eq!(d.get_data_dirs(), strings(&["/usr/local/share/", "/usr/share/"]));
    assert_eq!(d.get_config_dirs(), strings(&["/etc/xdg/"]));
    assert_eq!(d.runtime_dir, None);
}

#[test]
fn data_home_defaults_with_prefix() {
    let d = BaseDirectories::with_home_dir("app", "", Some("/h".to_string()), &env(&[]));
    assert!(same_path(&d.get_data_home().unwrap(), "/h/.local/share/app"));
}

#[test]
fn environment_overrides_and_relative_values_are_ignored() {
    let d = dirs_at(
        "/h",
        &[
            ("XDG_DATA_HOME", "/data"),
            ("XDG_CONFIG_HOME", "relative/config"),
            ("XDG_CACHE_HOME", ""),
            ("XDG_DATA_DIRS", "rel:/sys/one:/sys/two"),
            ("XDG_CONFIG_DIRS", "only/relative"),
            ("XDG_RUNTIME_DIR", "run/relative"),
        ],
    );
    assert_eq!(d.data_home.as_deref(), Some("/data"));
    assert_eq!(d.config_home.as_deref(), Some("/h/.config"));
    assert_eq!(d.cache_home.as_deref(), Some("/h/.cache"));
    assert_eq!(d.data_dirs, strings(&["/sys/one", "/sys/two"]));
    assert_eq!(d.config_dirs, strings(&["/etc/xdg"]));
    assert_eq!(d.runtime_dir, None);
}

#[test]
fn first_setting_of_a_variable_counts() {
    let d = dirs_at("/h", &[("XDG_DATA_HOME", "/first"), ("XDG_DATA_HOME", "/second")]);
    assert_eq!(d.data_home.as_deref(), Some("/first"));
}

#[test]
fn no_home_leaves_home_roots_unset() {
    let d = BaseDirectories::with_home_dir("", "", None, &env(&[("XDG_CONFIG_HOME", "/cfg")]));
    assert_eq!(d.data_home, None);
    assert_eq!(d.config_home.as_deref(), Some("/cfg"));
    assert_eq!(d.get_data_file("x"), None);
    assert!(matches!(d.place_data_file("x"), Err(BaseDirectoriesError::HomeMissing)));
    assert!(matches!(d.create_cache_directory("x"), Err(BaseDirectoriesError::HomeMissing)));
    assert_eq!(d.data_search_paths("x"), strings(&["/usr/local/share/x", "/usr/share/x"]));
}

#[test]
fn explicit_home_is_used_verbatim() {
    let d = BaseDirectories::with_env("", "", "/explicit", &env(&[]));
    assert_eq!(d.home_dir.as_deref(), Some("/explicit"));
    assert_eq!(d.config_home.as_deref(), Some("/explicit/.config"));
}

#[test]
fn empty_home_asks_the_platform() {
    let d = BaseDirectories::with_env("", "", "", &env(&[]));
    let expected = dirs::home_dir().map(|p| p.to_string_lossy().into_owned());
    assert_eq!(d.home_dir, expected);
}

#[test]
fn prefix_and_profile_apply_to_home_only() {
    let d = BaseDirectories::with_home_dir(
        "app",
        "p1",
        Some("/h".to_string()),
        &env(&[("XDG_CONFIG_DIRS", "/sys")]),
    );
    assert!(same_path(&d.get_config_home().unwrap(), "/h/.config/app/p1"));
    assert_eq!(d.config_search_paths("f"), strings(&["/h/.config/app/p1/f", "/sys/app/f"]));
    assert_eq!(d.get_config_dirs(), strings(&["/sys/app"]));
}

#[test]
fn get_file_joins_without_side_effects() {
    let d = dirs_at("/h", &[("XDG_CONFIG_HOME", "/cfg")]);
    let first = d.get_config_file("myapp/user_config.file");
    let second = d.get_config_file("myapp/user_config.file");
    assert_eq!(first.as_deref(), Some("/cfg/myapp/user_config.file"));
    assert_eq!(first, second);
    assert_eq!(d.get_state_file("s").as_deref(), Some("/h/.local/state/s"));
}

#[test]
fn place_then_get_gives_the_same_path() {
    let d = dirs_at("/h", &[]);
    let placed = d.place_config_file("a/b.conf").unwrap();
    assert_eq!(Some(placed.path.clone()), d.get_config_file("a/b.conf"));
    assert!(same_path(&placed.directory, "/h/.config/a"));
    let top = d.place_config_file("top.conf").unwrap();
    assert!(same_path(&top.directory, "/h/.config"));
}

#[test]
fn prefix_applies_to_cache_files() {
    let d = BaseDirectories::with_home_dir(
        "myapp",
        "",
        Some("/t/user".to_string()),
        &env(&[("XDG_CACHE_HOME", "/t/user/cache")]),
    );
    assert!(same_path(&d.get_cache_file("cache.db").unwrap(), "/t/user/cache/myapp/cache.db"));
    assert!(same_path(&d.place_cache_file("cache.db").unwrap().path, "/t/user/cache/myapp/cache.db"));
    assert!(same_path(&d.place_cache_file("cache.db").unwrap().directory, "/t/user/cache/myapp"));
}

#[test]
fn home_wins_ties() {
    let d = dirs_at("/h", &[("XDG_CONFIG_DIRS", "/a:/b")]);
    let found = d.find_config_file("f", &vec![true, true, true]);
    assert_eq!(found.as_deref(), Some("/h/.config/f"));
}

#[test]
fn system_dirs_are_searched_in_order() {
    let d = dirs_at("/h", &[("XDG_CONFIG_DIRS", "/a:/b")]);
    assert_eq!(d.config_search_paths("f"), strings(&["/h/.config/f", "/a/f", "/b/f"]));
    assert_eq!(d.find_config_file("f", &vec![false, true, true]).as_deref(), Some("/a/f"));
    assert_eq!(d.find_config_file("f", &vec![false, false, true]).as_deref(), Some("/b/f"));
    assert_eq!(d.find_config_file("f", &vec![false, false, false]), None);
    assert_eq!(d.find_config_file("f", &vec![]), None);
}

fn existing(it: &mut xdg::FileFindIterator, exists: &dyn Fn(&str) -> bool, back: bool) -> Option<String> {
    loop {
        let c = if back { it.next_back_candidate()? } else { it.next_candidate()? };
        if exists(&c) {
            return Some(c);
        }
    }
}

#[test]
fn find_files_runs_from_lowest_priority() {
    let d = dirs_at("/h", &[("XDG_CONFIG_DIRS", "/a:/b")]);
    let exists = |p: &str| p == "/a/f" || p == "/b/f";
    let mut it = d.find_config_files("f");
    assert_eq!(it.remaining(), 3);
    assert_eq!(existing(&mut it, &exists, false).as_deref(), Some("/b/f"));
    assert_eq!(existing(&mut it, &exists, false).as_deref(), Some("/a/f"));
    assert_eq!(existing(&mut it, &exists, false), None);
    let mut back = d.find_config_files("f");
    assert_eq!(existing(&mut back, &exists, true).as_deref(), Some("/a/f"));
    assert_eq!(existing(&mut back, &exists, true).as_deref(), Some("/b/f"));
    assert_eq!(existing(&mut back, &exists, true), None);
}

#[test]
fn find_files_ends_meet_in_the_middle() {
    let d = dirs_at("/h", &[("XDG_DATA_DIRS", "/a:/b")]);
    let mut it = d.find_data_files("f");
    assert_eq!(it.next_candidate().as_deref(), Some("/b/f"));
    assert_eq!(it.next_back_candidate().as_deref(), Some("/h/.local/share/f"));
    assert_eq!(it.next_back_candidate().as_deref(), Some("/a/f"));
    assert_eq!(it.next_candidate(), None);
    assert_eq!(it.next_back_candidate(), None);
}

#[test]
fn cache_and_state_search_home_only() {
    let d = dirs_at("/h", &[]);
    assert_eq!(d.cache_search_paths("c"), strings(&["/h/.cache/c"]));
    assert_eq!(d.find_cache_file("c", &vec![true]).as_deref(), Some("/h/.cache/c"));
    assert_eq!(d.find_state_file("s", &vec![false]), None);
}

#[test]
fn place_then_find_gives_the_same_path() {
    let d = dirs_at("/h", &[]);
    let placed = d.place_data_file("new/thing").unwrap();
    let found = d.find_data_file("new/thing", &vec![true]).unwrap();
    assert!(same_path(&found, &placed.path));
}

#[test]
fn runtime_directory_guard() {
    let d = dirs_at("/h", &[("XDG_RUNTIME_DIR", "/run/user/1")]);
    let insecure = DirStatus::Mode(0o770);
    assert!(!d.has_runtime_directory(&insecure));
    match d.get_runtime_directory(&insecure) {
        Err(BaseDirectoriesError::RuntimeDirInsecure(p, perms)) => {
            assert_eq!(p, "/run/user/1");
            assert_eq!(perms, Permissions(0o770));
        }
        other => panic!("unexpected {:?}", other),
    }
    let secure = DirStatus::Mode(0o700);
    assert!(d.has_runtime_directory(&secure));
    assert_eq!(d.get_runtime_directory(&secure).unwrap(), "/run/user/1");
    let gone = DirStatus::Inaccessible("No such file or directory".to_string());
    assert!(matches!(
        d.get_runtime_directory(&gone),
        Err(BaseDirectoriesError::RuntimeDirInaccessible(_, _))
    ));
    let none = dirs_at("/h", &[]);
    assert!(matches!(none.get_runtime_directory(&secure), Err(BaseDirectoriesError::RuntimeDirMissing)));
    assert_eq!(BaseDirectoriesError::RuntimeDirMissing.description(), "$XDG_RUNTIME_DIR is not set");
}

#[test]
fn runtime_files_need_the_guard() {
    let d = dirs_at("/h", &[("XDG_RUNTIME_DIR", "/run/user/1")]);
    let ok = DirStatus::Mode(0o700);
    let bad = DirStatus::Mode(0o755);
    assert_eq!(d.get_runtime_file(&ok, "user_runtime.file").unwrap(), "/run/user/1/user_runtime.file");
    assert!(d.get_runtime_file(&bad, "x").is_err());
    let placed = d.place_runtime_file(&ok, "bar/baz").unwrap();
    assert_eq!(placed.path, "/run/user/1/bar/baz");
    assert!(same_path(&placed.directory, "/run/user/1/bar"));
    assert!(same_path(&d.create_runtime_directory(&ok, "foo").unwrap(), "/run/user/1/foo"));
    assert_eq!(d.find_runtime_file(&ok, "bar/baz", &vec![true]).as_deref(), Some("/run/user/1/bar/baz"));
    assert_eq!(d.find_runtime_file(&bad, "bar/baz", &vec![true]), None);
    assert_eq!(d.runtime_search_paths(&bad, "x"), Vec::<String>::new());
    let listed = d.list_runtime_files(&ok, ".", &vec![strings(&["bar", "foo"])]);
    assert!(same_path(&listed[0], "/run/user/1/bar"));
    assert!(same_path(&listed[1], "/run/user/1/foo"));
    assert!(d.list_runtime_files(&bad, ".", &vec![strings(&["bar"])]).is_empty());
}

#[test]
fn create_directory_is_the_joined_path() {
    let d = dirs_at("/h", &[]);
    assert_eq!(d.create_config_directory("a/b").unwrap(), "/h/.config/a/b");
    assert_eq!(d.create_data_directory("a").unwrap(), "/h/.local/share/a");
    assert_eq!(d.create_state_directory("s").unwrap(), "/h/.local/state/s");
}

#[test]
fn listing_once_keeps_first_of_each_name() {
    let d = dirs_at("/u", &[("XDG_CONFIG_DIRS", "/s1:/s2")]);
    let names = vec![
        strings(&["everywhere", "myapp", "user_config.file"]),
        strings(&["both_system_config.file", "everywhere", "myapp", "system1_config.file"]),
        strings(&["both_system_config.file", "everywhere", "system2_config.file"]),
    ];
    let all = d.list_config_files(".", &names);
    assert_eq!(all.len(), 10);
    let once = d.list_config_files_once(".", &names);
    assert_eq!(
        once,
        strings(&[
            "/u/.config/./everywhere",
            "/u/.config/./myapp",
            "/u/.config/./user_config.file",
            "/s1/./both_system_config.file",
            "/s1/./system1_config.file",
            "/s2/./system2_config.file",
        ])
    );
    for p in &once {
        assert!(all.contains(p));
    }
}

#[test]
fn listing_skips_unread_directories() {
    let d = dirs_at("/h", &[("XDG_DATA_DIRS", "/s")]);
    let names = vec![strings(&["a"])];
    assert_eq!(d.list_data_files("x", &names), strings(&["/h/.local/share/x/a"]));
    assert_eq!(d.list_data_files_once("x", &vec![vec![], strings(&["b"])]), strings(&["/s/x/b"]));
    assert_eq!(d.list_cache_files("x", &vec![strings(&["c"])]), strings(&["/h/.cache/x/c"]));
    assert_eq!(d.list_state_files("x", &vec![]), Vec::<String>::new());
}

#[test]
fn generic_search_and_listing() {
    let cands = strings(&["/one", "/two"]);
    assert_eq!(read_file(&cands, &vec![false, true]).as_deref(), Some("/two"));
    let dirs = strings(&["/d1", "/d2"]);
    let names = vec![strings(&["x"]), strings(&["x", "y"])];
    assert_eq!(list_files(&dirs, &names), strings(&["/d1/x", "/d2/x", "/d2/y"]));
    assert_eq!(list_files_once(&dirs, &names), strings(&["/d1/x", "/d2/y"]));
}

#[test]
fn menu_items_come_from_data_dirs() {
    let d = dirs_at("/h", &[("XDG_DATA_DIRS", "/usr/share")]);
    assert_eq!(
        d.menu_item_dirs(),
        strings(&["/h/.local/share/applications", "/usr/share/applications"])
    );
    let items = d.list_menu_items(&vec![vec![], strings(&["foo.desktop"])]);
    assert_eq!(items, strings(&["/usr/share/applications/foo.desktop"]));
}

#[test]
fn permissions_mask_group_and_others() {
    assert!(Permissions(0o700).is_only_owner_full_control());
    assert!(Permissions(0o600).is_only_owner_full_control());
    assert!(!Permissions(0o701).is_only_owner_full_control());
    assert!(!Permissions(0o740).is_only_owner_full_control());
}
