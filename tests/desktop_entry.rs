use xdg::desktop_entry::{DesktopEntry, DesktopFile, DEFAULT_GROUP};
use xdg::locale::{parse_locale_strings, LocaleLang, LocaleString, LocaleStrings};

const MULTIPLE_FILE: &str = "test_files/desktop_entries/test-multiple.desktop";

const MULTIPLE: &str = "[Desktop Entry]
Version=1.0
Type=Application
Name=Foo Browser
Name[es]=Navegador Foo
GenericName=Web Browser
Comment=Browse the web
Exec=foo-browser %U
Icon=foo-browser
Terminal=false
Categories=Network;WebBrowser;GTK;X-Foo;
MimeType=text/html;application/xhtml+xml;
Actions=new-empty-window;

[Desktop Action new-empty-window]
Name=New Empty Window
Exec=foo-browser --new-window
";

fn pairs(v: &[(&str, &str)]) -> Vec<(String, String)> {
    v.iter().map(|(k, x)| (k.to_string(), x.to_string())).collect()
}

#[test]
fn desktop_entry_parse_desktop_file() {
    let filename = MULTIPLE_FILE;
    let desktop_file = DesktopFile::from_text(filename, MULTIPLE).unwrap();
    let groups = desktop_file.groups;
    assert_eq!(desktop_file.filename, filename);
    assert_eq!(groups.len(), 2);
}

#[test]
fn desktop_entry_parse_groups() {
    let filename = MULTIPLE_FILE;
    let desktop_file = DesktopFile::from_text(filename, MULTIPLE).unwrap();
    let groups = desktop_file.groups;
    let g1 = groups.get(0).unwrap();
    let g2 = groups.get(1).unwrap();
    assert_eq!(g1.entry_type, DEFAULT_GROUP);
    assert_eq!(g2.entry_type, "Desktop Action new-empty-window");
    assert_eq!(g1.categories.as_ref().unwrap().len(), 4)
}

#[test]
fn test_parse_desktop_file() {
    let filename = MULTIPLE_FILE;
    let desktop_file = DesktopFile::from_text(filename, MULTIPLE).unwrap();
    let groups = desktop_file.groups;
    assert_eq!(desktop_file.filename, filename);
    assert_eq!(groups.len(), 2);
}

#[test]
fn test_parse_groups() {
    let filename = MULTIPLE_FILE;
    let desktop_file = DesktopFile::from_text(filename, MULTIPLE).unwrap();
    let groups = desktop_file.groups;
    let g1 = groups.get(0).unwrap();
    let g2 = groups.get(1).unwrap();
    assert_eq!(g1.entry_type, DEFAULT_GROUP);
    assert_eq!(g2.entry_type, "Desktop Action new-empty-window");
    assert_eq!(g1.categories.as_ref().unwrap().len(), 4)
}

#[test]
fn from_str_names_the_file_and_reads_the_name() {
    let d = DesktopFile::from_str("[Desktop Entry]\nType=Application\nName=Foo\nExec=Bar").unwrap();
    assert_eq!(d.filename, "str.desktop");
    assert_eq!(d.get_name().unwrap(), "Foo");
    assert!(d.validate().is_ok());
}

#[test]
fn group_fields_are_typed() {
    let d = DesktopFile::from_text(MULTIPLE_FILE, MULTIPLE).unwrap();
    let g = d.get_default_group().unwrap();
    assert_eq!(g.type_string.as_deref(), Some("Application"));
    assert_eq!(g.version.as_deref(), Some("1.0"));
    assert_eq!(g.terminal, Some(false));
    assert_eq!(g.exec_command.as_deref(), Some("foo-browser %U"));
    assert_eq!(
        g.mime_type.clone().unwrap(),
        vec!["text/html".to_string(), "application/xhtml+xml".to_string()]
    );
    assert_eq!(g.actions.clone().unwrap(), vec!["new-empty-window".to_string()]);
    let name = g.name.as_ref().unwrap();
    assert_eq!(name.len(), 2);
    assert_eq!(name.get_default().unwrap(), "Foo Browser");
    assert_eq!(name.get("es").unwrap(), "Navegador Foo");
    assert!(name.get("fr").is_err());
    assert_eq!(g.get_header(), "Desktop Entry");
    assert_eq!(g.get_name().unwrap(), "Foo Browser");
    assert_eq!(g.get_type().unwrap(), "Application");
    assert_eq!(g.get_exec().unwrap(), "foo-browser %U");
    assert_eq!(g.get_url().unwrap_err().0, vec!["Could not read URL".to_string()]);
    assert!(g.is_default_group());
    assert!(!d.groups[1].is_default_group());
}

#[test]
fn unparsable_text_is_an_error() {
    let e = DesktopFile::from_str("[Desktop Entry]\n=oops").unwrap_err();
    assert_eq!(e.0, vec!["Could not load ini from [Desktop Entry]\n=oops".to_string()]);
}

#[test]
fn keys_before_the_first_group_are_an_error() {
    let e = DesktopFile::from_str("Type=Application\n[Desktop Entry]\nName=Foo\nType=Application\nExec=x")
        .unwrap_err();
    assert_eq!(e.0, vec!["Could not read None".to_string()]);
}

#[test]
fn main_group_needs_a_type() {
    let e = DesktopFile::from_str("[Desktop Entry]\nName=Foo").unwrap_err();
    assert_eq!(e.0, vec!["Key 'Type' is missing".to_string()]);
}

#[test]
fn a_file_without_groups_has_no_default_group() {
    let e = DesktopFile::from_str("").unwrap_err();
    assert_eq!(e.0, vec!["Could not read default group".to_string()]);
}

#[test]
fn a_file_name_needs_an_extension() {
    let e = DesktopFile::from_text("foo", "[Desktop Entry]\nType=Application\nName=Foo\nExec=x").unwrap_err();
    assert_eq!(e.0, vec!["Could not convert extension of foo to String".to_string()]);
}

#[test]
fn repeated_keys_keep_the_last_value() {
    let d = DesktopFile::from_str("[Desktop Entry]\nType=Application\nName=Foo\nExec=a\nExec=b").unwrap();
    assert_eq!(d.groups[0].exec_command.as_deref(), Some("b"));
}

#[test]
fn application_needs_exec() {
    let g = DesktopEntry::from_fields(DEFAULT_GROUP, &pairs(&[("Type", "Application"), ("Name", "Foo")]));
    assert_eq!(g.check_keys().unwrap_err().0, vec!["Type=Application needs 'Exec' key".to_string()]);
    assert!(DesktopEntry::from_hash_map(DEFAULT_GROUP, &pairs(&[("Type", "Application"), ("Name", "Foo")])).is_err());
}

#[test]
fn link_needs_url_and_kde_types_warn() {
    let g = DesktopEntry::from_fields(DEFAULT_GROUP, &pairs(&[("Type", "Link"), ("Name", "Foo")]));
    assert_eq!(g.check_keys().unwrap_err().0, vec!["Type=Link needs 'URL' key".to_string()]);
    let g = DesktopEntry::from_fields(DEFAULT_GROUP, &pairs(&[("Type", "Service"), ("Name", "Foo")]));
    assert_eq!(g.check_keys().unwrap_err().0, vec!["Type=Service is a KDE extension".to_string()]);
    let g = DesktopEntry::from_fields(DEFAULT_GROUP, &pairs(&[("Type", "MimeType"), ("Name", "Foo")]));
    assert_eq!(g.check_keys().unwrap_err().0, vec!["Type=MimeType is deprecated".to_string()]);
    let g = DesktopEntry::from_fields(DEFAULT_GROUP, &pairs(&[("Type", "Other"), ("Name", "Foo")]));
    assert_eq!(
        g.check_keys().unwrap_err().0,
        vec!["Value of key 'Type' must be Application, Link or Directory, but is Other".to_string()]
    );
}

#[test]
fn show_in_lists_are_checked() {
    let g = DesktopEntry::from_fields(
        DEFAULT_GROUP,
        &pairs(&[("Type", "Directory"), ("Name", "Foo"), ("OnlyShowIn", "GNOME;Foo;X-Bar;Baz")]),
    );
    assert_eq!(
        g.check_only_show_in().unwrap_err().0,
        vec![
            "'Foo' is not a registered OnlyShowIn value".to_string(),
            "'Baz' is not a registered OnlyShowIn value".to_string()
        ]
    );
    assert!(g.check_not_show_in().is_ok());
    assert_eq!(g.check_keys().unwrap_err().0.len(), 2);
}

#[test]
fn both_show_in_lists_are_rejected() {
    let g = DesktopEntry::from_fields(
        DEFAULT_GROUP,
        &pairs(&[("Type", "Directory"), ("Name", "Foo"), ("OnlyShowIn", "GNOME"), ("NotShowIn", "KDE")]),
    );
    assert_eq!(
        g.check_group().unwrap_err().0,
        vec!["Group may either have OnlyShowIn or NotShowIn, but not both".to_string()]
    );
}

#[test]
fn group_headers_are_checked() {
    let pairs1 = pairs(&[("Name", "Foo")]);
    assert!(DesktopEntry::from_fields("Desktop Action new-window", &pairs1).check_group().is_ok());
    assert!(DesktopEntry::from_fields("X-Custom Group", &pairs1).check_group().is_ok());
    assert_eq!(
        DesktopEntry::from_fields("Desktop Action two words", &pairs1).check_group().unwrap_err().0,
        vec!["Invalid Group name: Desktop Action two words".to_string()]
    );
    assert!(DesktopEntry::from_fields("X-Gruppé", &pairs1).check_group().is_err());
    assert!(DesktopEntry::from_fields("Something", &pairs1).check_group().is_err());
}

#[test]
fn extras_report_deprecated_header_and_missing_keys() {
    let g = DesktopEntry::from_fields("KDE Desktop Entry", &pairs(&[]));
    assert_eq!(
        g.check_extras().unwrap_err().0,
        vec!["[KDE Desktop Entry] Header is deprecated".to_string(), "Key 'Name' is missing".to_string()]
    );
    let g = DesktopEntry::from_fields(DEFAULT_GROUP, &pairs(&[]));
    assert_eq!(
        g.check_extras().unwrap_err().0,
        vec!["Key 'Type' is missing".to_string(), "Key 'Name' is missing".to_string()]
    );
}

#[test]
fn categories_are_checked() {
    let g = DesktopEntry::from_fields(DEFAULT_GROUP, &pairs(&[("Categories", "WebBrowser;GTK")]));
    assert_eq!(g.check_categories().unwrap_err().0, vec!["Missing main category".to_string()]);
    let g = DesktopEntry::from_fields(DEFAULT_GROUP, &pairs(&[("Categories", "Network;Nonsense;X-Ok")]));
    assert_eq!(
        g.check_categories().unwrap_err().0,
        vec!["Nonsense is not a registered Category".to_string()]
    );
    let g = DesktopEntry::from_fields(DEFAULT_GROUP, &pairs(&[("Categories", "Utility;TextEditor")]));
    assert!(g.check_categories().is_ok());
}

#[test]
fn try_exec_is_looked_up() {
    let g = DesktopEntry::from_fields(DEFAULT_GROUP, &pairs(&[("TryExec", "no-such-program-xdg-test")]));
    assert_eq!(
        g.check_try_exec().unwrap_err().0,
        vec!["Could not find no-such-program-xdg-test".to_string()]
    );
    assert!(g.check_try_exec_with(true).is_ok());
    assert!(g.check_try_exec_with(false).is_err());
    let g = DesktopEntry::from_fields(DEFAULT_GROUP, &pairs(&[]));
    assert!(g.check_try_exec().is_ok());
}

#[test]
fn booleans_are_exactly_true_or_false() {
    let g = DesktopEntry::from_fields(
        DEFAULT_GROUP,
        &pairs(&[("Hidden", "true"), ("NoDisplay", "false"), ("Terminal", "yes")]),
    );
    assert_eq!(g.hidden, Some(true));
    assert_eq!(g.no_display, Some(false));
    assert_eq!(g.terminal, None);
    assert_eq!(g.startup_notify, None);
}

#[test]
fn keywords_are_localized_lists() {
    let g = DesktopEntry::from_fields(
        DEFAULT_GROUP,
        &pairs(&[("Keywords", "a;b;"), ("Keywords[es]", "c;d;")]),
    );
    let k = g.keywords.unwrap();
    assert_eq!(k.len(), 2);
    assert_eq!(k.get_default().unwrap(), vec!["a".to_string(), "b".to_string()]);
    assert_eq!(k.get("es").unwrap(), vec!["c".to_string(), "d".to_string()]);
    assert!(k.get("fr").is_err());
}

#[test]
fn locale_strings_parse() {
    let locales = parse_locale_strings("Name[jp]", "銹").unwrap();
    assert_eq!(&locales.values[0], "銹");
    match locales.lang {
        LocaleLang::Lang(lang) => assert_eq!(&lang, "jp"),
        LocaleLang::Default => panic!("expected a language"),
    }
    let plain = parse_locale_strings("Name", "a;b").unwrap();
    assert!(plain.lang.is_default());
    assert_eq!(plain.values, vec!["a".to_string(), "b".to_string()]);
    assert_eq!(
        parse_locale_strings("Name[jp", "x").unwrap_err().0,
        vec!["Malformed locale string Name[jp".to_string()]
    );
    assert_eq!(
        parse_locale_strings("Namejp]", "x").unwrap_err().0,
        vec!["Malformed locale string Namejp]".to_string()]
    );
    assert_eq!(
        parse_locale_strings("Name", ";;").unwrap_err().0,
        vec![";; is not a valid sequence of strings".to_string()]
    );
}

#[test]
fn locale_lookups_from_pairs() {
    let map = pairs(&[("Name", "Foo"), ("Name[es]", "ElFoo"), ("Comment", "c")]);
    let name = LocaleString::from_hashmap("Name", &map).unwrap();
    assert_eq!(name.len(), 2);
    assert!(!name.is_empty());
    assert_eq!(name.get_default().unwrap(), "Foo");
    assert_eq!(name.get("es").unwrap(), "ElFoo");
    assert!(LocaleString::from_hashmap("GenericName", &map).is_none());
    let bad = pairs(&[("Keywords", "a"), ("Keywords[es", "b")]);
    assert!(LocaleStrings::from_hashmap("Keywords", &bad).is_none());
    let only_lang = pairs(&[("Name[es]", "ElFoo")]);
    assert!(LocaleString::from_hashmap("Name", &only_lang).is_none());
}

#[test]
fn error_lines_are_pushed() {
    let mut e = xdg::desktop_entry::Error::from_message("first".to_string());
    e.push("second");
    assert_eq!(e.len(), 2);
    assert!(!e.is_empty());
    assert_eq!(e.0[1], "second\n");
}

#[test]
fn a_group_renders_its_keys_in_order() {
    let d = DesktopFile::from_str("[Desktop Entry]\nType=Application\nName=Foo\nExec=Bar").unwrap();
    assert_eq!(d.to_ini_string(), "[Desktop Entry]\nType=Application\nExec=Bar\nName=Foo");
}

#[test]
fn groups_render_separated_by_line_breaks() {
    let d = DesktopFile::from_text(MULTIPLE_FILE, MULTIPLE).unwrap();
    let text = d.to_ini_string();
    assert_eq!(
        text,
        "[Desktop Entry]\nType=Application\nVersion=1.0\nExec=foo-browser %U\nIcon=foo-browser\nName=Foo Browser\nName[es]=Navegador Foo\nGenericName=Web Browser\nComment=Browse the web\nTerminal=false\nActions=new-empty-window;\nMimeType=text/html;application/xhtml+xml;\nCategories=Network;WebBrowser;GTK;X-Foo;\n[Desktop Action new-empty-window]\nExec=foo-browser --new-window\nName=New Empty Window"
    );
    let again = DesktopFile::from_text(MULTIPLE_FILE, &text).unwrap();
    assert_eq!(again.to_ini_string(), text);
}

#[test]
fn keywords_render_with_semicolons() {
    let g = DesktopEntry::from_fields(
        "X-Test",
        &pairs(&[("Keywords", "a;b;"), ("Keywords[es]", "c;d;"), ("NoDisplay", "true")]),
    );
    assert_eq!(
        g.to_ini_string(),
        "[X-Test]\nNoDisplay=true\nNoDisplay=true\nKeywords=a;b\nKeywords[es]=c;d;"
    );
}
