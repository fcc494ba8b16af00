use xdg::{get_userpath, BaseDirectories, UserDirectories, UserDirsError};

fn env(vars: &[(&str, &str)]) -> Vec<(String, String)> {
    vars.iter().map(|(k, v)| (k.to_string(), v.to_string())).collect()
}

#[test]
fn user_paths_expand_home() {
    let e = env(&[
        ("XDG_DESKTOP_DIR", "$HOME/Desktop"),
        ("XDG_MUSIC_DIR", "/srv/music"),
        ("XDG_VIDEOS_DIR", "Videos"),
        ("XDG_PICTURES_DIR", "$HOME"),
        ("XDG_TEMPLATES_DIR", "$HOMEX/t"),
    ]);
    assert_eq!(get_userpath(&e, "XDG_DESKTOP_DIR", "/home/u").as_deref(), Some("/home/u/Desktop"));
    assert_eq!(get_userpath(&e, "XDG_MUSIC_DIR", "/home/u").as_deref(), Some("/srv/music"));
    assert_eq!(get_userpath(&e, "XDG_VIDEOS_DIR", "/home/u"), None);
    assert_eq!(get_userpath(&e, "XDG_PICTURES_DIR", "/home/u").as_deref(), Some("/home/u/"));
    assert_eq!(get_userpath(&e, "XDG_TEMPLATES_DIR", "/home/u"), None);
    assert_eq!(get_userpath(&e, "XDG_DOWNLOAD_DIR", "/home/u"), None);
}

#[test]
fn user_dirs_file_is_parsed() {
    let text = "# comment\nXDG_DESKTOP_DIR=\"$HOME/Desktop\"\nXDG_DOWNLOAD_DIR=\"$HOME/Downloads\"\nXDG_MUSIC_DIR=\"/media/music\"\n";
    let u = UserDirectories::from_contents(text, "/home/u").unwrap();
    assert_eq!(u.get_desktop().map(|s| s.as_str()), Some("/home/u/Desktop"));
    assert_eq!(u.get_download().map(|s| s.as_str()), Some("/home/u/Downloads"));
    assert_eq!(u.get_music().map(|s| s.as_str()), Some("/media/music"));
    assert_eq!(u.get_documents(), None);
    assert_eq!(u.get_templates(), None);
    assert_eq!(u.get_public_share(), None);
    assert_eq!(u.get_pictures(), None);
    assert_eq!(u.get_videos(), None);
}

#[test]
fn malformed_user_dirs_file_is_an_error() {
    let r = UserDirectories::from_contents("this is = = not\"valid", "/home/u");
    assert_eq!(r.unwrap_err(), UserDirsError::Malformed);
}

#[test]
fn user_dirs_file_lives_in_config_home() {
    let d = BaseDirectories::with_home_dir("", "", Some("/home/u".to_string()), &env(&[]));
    assert_eq!(UserDirectories::user_dirs_path(&d).unwrap(), "/home/u/.config/user-dirs.dirs");
    let none = BaseDirectories::with_home_dir("", "", None, &env(&[]));
    assert_eq!(UserDirectories::user_dirs_path(&none).unwrap_err(), UserDirsError::HomeMissing);
}

#[test]
fn user_dirs_from_entries() {
    let u = UserDirectories::from_entries(&env(&[("XDG_PUBLICSHARE_DIR", "$HOME/Public")]), "/h");
    assert_eq!(u.get_public_share().map(|s| s.as_str()), Some("/h/Public"));
}
