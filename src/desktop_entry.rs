//! Desktop entry files: groups of `Key=value` lines under `[Group]`
//! headers, parsed into typed fields and checked against the registered
//! types, groups, desktops and categories.

use vstd::prelude::*;
use vstd::utf8::is_ascii_chars;

use crate::base_directories::{env_lookup, opt_view, pair_views, spec_env_lookup};
use crate::locale::{
    lang_view, spec_first_values, spec_locale_strings, spec_value_for, LocaleString,
    LocaleStrings,
};
use crate::paths::{same_text, split_nonempty, spec_keep_nonempty, spec_split_on, views};
use crate::text::{
    concat, concat3, is_one_of, spec_starts_with, spec_trim_end, starts_with, str_views, trim_end,
};

verus! {

/// The header of the main group of a desktop file.
pub const DEFAULT_GROUP: &'static str = "Desktop Entry";

/// The pattern of the header of an additional application action.
pub const ACTION_GROUP_PATTERN: &'static str = "^Desktop Action [a-zA-Z0-9-]+$";

/// The pattern of the header of an extension group.
pub const EXTENSION_GROUP_PATTERN: &'static str = "^X-";

/// The warnings found in a desktop file, or why it could not be read.
#[derive(Debug, Clone)]
pub struct Error(pub Vec<String>);

impl View for Error {
    type V = Seq<Seq<char>>;

    open spec fn view(&self) -> Seq<Seq<char>> {
        views(self.0@)
    }
}

impl Error {
    /// An error with the single message `m`.
    pub fn from_message(m: String) -> (r: Error)
        ensures
            r@ == seq![m@],
    {
        let mut v: Vec<String> = Vec::new();
        let ghost m0 = m@;
        v.push(m);
        proof {
            assert(views(v@) =~= seq![m0]);
        }
        Error(v)
    }

    /// Adds the line `s`.
    pub fn push(&mut self, s: &str)
        ensures
            final(self)@ == old(self)@.push(s@ + "\n"@),
    {
        let line = concat(s, "\n");
        let ghost before = self.0@;
        self.0.push(line);
        proof {
            assert(views(self.0@) =~= views(before).push(line@));
        }
    }

    pub fn len(&self) -> (r: usize)
        ensures
            r == self@.len(),
    {
        self.0.len()
    }

    pub fn is_empty(&self) -> (r: bool)
        ensures
            r == (self@.len() == 0),
    {
        self.0.len() == 0
    }

    /// The messages joined with spaces, without trailing line breaks.
    pub fn message(&self) -> (r: String)
        ensures
            r@ == spec_trim_end(spec_join_spaces(self@), '\n'),
    {
        let mut joined = String::new();
        let mut i: usize = 0;
        while i < self.0.len()
            invariant
                i <= self@.len(),
                joined@ == spec_join_spaces(self@.subrange(0, i as int)),
            decreases self.0.len() - i,
        {
            proof {
                let next = self@.subrange(0, i + 1);
                assert(next.drop_last() =~= self@.subrange(0, i as int));
                assert(next.last() == self.0@[i as int]@);
                if i == 0 {
                    assert(joined@ =~= Seq::<char>::empty());
                    assert(Seq::<char>::empty() + self.0@[0]@ =~= self.0@[0]@);
                }
            }
            if i > 0 {
                joined.append(" ");
            }
            joined.append(self.0[i].as_str());
            i = i + 1;
        }
        proof {
            assert(self@.subrange(0, self@.len() as int) =~= self@);
        }
        trim_end(joined.as_str(), '\n')
    }
}

/// `ms` joined with single spaces.
pub open spec fn spec_join_spaces(ms: Seq<Seq<char>>) -> Seq<char>
    decreases ms.len(),
{
    if ms.len() == 0 {
        Seq::empty()
    } else if ms.len() == 1 {
        ms[0]
    } else {
        spec_join_spaces(ms.drop_last()) + " "@ + ms.last()
    }
}

/// The non-empty `;`-separated values of `s`.
pub open spec fn spec_parse_strings(s: Seq<char>) -> Seq<Seq<char>> {
    spec_keep_nonempty(spec_split_on(s, ';'))
}

/// The non-empty `;`-separated values of `s`.
pub fn parse_strings(s: &str) -> (r: Vec<String>)
    ensures
        views(r@) == spec_parse_strings(s@),
{
    split_nonempty(s, ';')
}

/// The name of what `regex::Regex` decides of a pattern and a text: whether
/// the text matches, or nothing when the pattern is not valid.
pub uninterp spec fn regex_match(pattern: Seq<char>, text: Seq<char>) -> Option<bool>;

/// Relies on `regex::Regex::new` and `regex::Regex::is_match`: compiles the
/// pattern and tests the text against it.
#[verifier::external_body]
fn regex_is_match(pattern: &str, text: &str) -> (r: Option<bool>)
    ensures
        r == regex_match(pattern@, text@),
{
    match regex::Regex::new(pattern) {
        Ok(re) => Some(re.is_match(text)),
        Err(_) => None,
    }
}

/// Relies on `which::which`: whether an executable of that name is found on
/// the search path; this depends on the environment and on the filesystem,
/// and nothing is promised of it.
#[verifier::external_body]
fn executable_found(name: &str) -> (r: bool) {
    which::which(name).is_ok()
}

/// One group of a desktop file. The fields follow the recognized keys;
/// `type_string` holds the `Type` key.
#[derive(Debug)]
pub struct DesktopEntry {
    pub entry_type: String,
    pub type_string: Option<String>,
    pub version: Option<String>,
    pub name: Option<LocaleString>,
    pub generic_name: Option<LocaleString>,
    pub no_display: Option<bool>,
    pub comment: Option<LocaleString>,
    pub icon: Option<String>,
    pub hidden: Option<bool>,
    pub only_show_in: Option<Vec<String>>,
    pub not_show_in: Option<Vec<String>>,
    pub dbus_activatable: Option<bool>,
    pub try_exec: Option<String>,
    pub exec_command: Option<String>,
    pub path: Option<String>,
    pub terminal: Option<bool>,
    pub actions: Option<Vec<String>>,
    pub mime_type: Option<Vec<String>>,
    pub categories: Option<Vec<String>>,
    pub implements: Option<Vec<String>>,
    pub keywords: Option<LocaleStrings>,
    pub startup_notify: Option<bool>,
    pub startup_wm_class: Option<String>,
    pub url: Option<String>,
    pub prefers_non_default_gpu: Option<bool>,
}

/// The mathematical content of a [`DesktopEntry`].
pub struct EntryView {
    pub entry_type: Seq<char>,
    pub type_string: Option<Seq<char>>,
    pub version: Option<Seq<char>>,
    pub name: Option<Seq<(Option<Seq<char>>, Seq<char>)>>,
    pub generic_name: Option<Seq<(Option<Seq<char>>, Seq<char>)>>,
    pub no_display: Option<bool>,
    pub comment: Option<Seq<(Option<Seq<char>>, Seq<char>)>>,
    pub icon: Option<Seq<char>>,
    pub hidden: Option<bool>,
    pub only_show_in: Option<Seq<Seq<char>>>,
    pub not_show_in: Option<Seq<Seq<char>>>,
    pub dbus_activatable: Option<bool>,
    pub try_exec: Option<Seq<char>>,
    pub exec_command: Option<Seq<char>>,
    pub path: Option<Seq<char>>,
    pub terminal: Option<bool>,
    pub actions: Option<Seq<Seq<char>>>,
    pub mime_type: Option<Seq<Seq<char>>>,
    pub categories: Option<Seq<Seq<char>>>,
    pub implements: Option<Seq<Seq<char>>>,
    pub keywords: Option<Seq<(Option<Seq<char>>, Seq<Seq<char>>)>>,
    pub startup_notify: Option<bool>,
    pub startup_wm_class: Option<Seq<char>>,
    pub url: Option<Seq<char>>,
    pub prefers_non_default_gpu: Option<bool>,
}

pub open spec fn opt_list_view(o: Option<Vec<String>>) -> Option<Seq<Seq<char>>> {
    match o {
        Some(v) => Some(views(v@)),
        None => None,
    }
}

pub open spec fn opt_locale_view(o: Option<LocaleString>) -> Option<
    Seq<(Option<Seq<char>>, Seq<char>)>,
> {
    match o {
        Some(v) => Some(v@),
        None => None,
    }
}

pub open spec fn opt_locales_view(o: Option<LocaleStrings>) -> Option<
    Seq<(Option<Seq<char>>, Seq<Seq<char>>)>,
> {
    match o {
        Some(v) => Some(v@),
        None => None,
    }
}

impl View for DesktopEntry {
    type V = EntryView;

    open spec fn view(&self) -> EntryView {
        EntryView {
            entry_type: self.entry_type@,
            type_string: opt_view(self.type_string),
            version: opt_view(self.version),
            name: opt_locale_view(self.name),
            generic_name: opt_locale_view(self.generic_name),
            no_display: self.no_display,
            comment: opt_locale_view(self.comment),
            icon: opt_view(self.icon),
            hidden: self.hidden,
            only_show_in: opt_list_view(self.only_show_in),
            not_show_in: opt_list_view(self.not_show_in),
            dbus_activatable: self.dbus_activatable,
            try_exec: opt_view(self.try_exec),
            exec_command: opt_view(self.exec_command),
            path: opt_view(self.path),
            terminal: self.terminal,
            actions: opt_list_view(self.actions),
            mime_type: opt_list_view(self.mime_type),
            categories: opt_list_view(self.categories),
            implements: opt_list_view(self.implements),
            keywords: opt_locales_view(self.keywords),
            startup_notify: self.startup_notify,
            startup_wm_class: opt_view(self.startup_wm_class),
            url: opt_view(self.url),
            prefers_non_default_gpu: self.prefers_non_default_gpu,
        }
    }
}

/// A boolean value: exactly `true` or `false`; anything else counts as unset.
pub open spec fn spec_bool(v: Option<Seq<char>>) -> Option<bool> {
    match v {
        Some(x) => if x == "true"@ {
            Some(true)
        } else if x == "false"@ {
            Some(false)
        } else {
            None
        },
        None => None,
    }
}

/// A list value: its non-empty `;`-separated values.
pub open spec fn spec_list(v: Option<Seq<char>>) -> Option<Seq<Seq<char>>> {
    match v {
        Some(x) => Some(spec_parse_strings(x)),
        None => None,
    }
}

pub open spec fn spec_locale_string(map: Seq<(Seq<char>, Seq<char>)>, key: Seq<char>) -> Option<
    Seq<(Option<Seq<char>>, Seq<char>)>,
> {
    match spec_locale_strings(map, key) {
        Some(ls) => Some(spec_first_values(ls)),
        None => None,
    }
}

/// The group named `section` with the keys of `map`.
pub open spec fn spec_parse_entry(section: Seq<char>, map: Seq<(Seq<char>, Seq<char>)>) -> EntryView {
    EntryView {
        entry_type: section,
        type_string: spec_env_lookup(map, "Type"@),
        version: spec_env_lookup(map, "Version"@),
        name: spec_locale_string(map, "Name"@),
        generic_name: spec_locale_string(map, "GenericName"@),
        no_display: spec_bool(spec_env_lookup(map, "NoDisplay"@)),
        comment: spec_locale_string(map, "Comment"@),
        icon: spec_env_lookup(map, "Icon"@),
        hidden: spec_bool(spec_env_lookup(map, "Hidden"@)),
        only_show_in: spec_list(spec_env_lookup(map, "OnlyShowIn"@)),
        not_show_in: spec_list(spec_env_lookup(map, "NotShowIn"@)),
        dbus_activatable: spec_bool(spec_env_lookup(map, "DBusActivatable"@)),
        try_exec: spec_env_lookup(map, "TryExec"@),
        exec_command: spec_env_lookup(map, "Exec"@),
        path: spec_env_lookup(map, "Path"@),
        terminal: spec_bool(spec_env_lookup(map, "Terminal"@)),
        actions: spec_list(spec_env_lookup(map, "Actions"@)),
        mime_type: spec_list(spec_env_lookup(map, "MimeType"@)),
        categories: spec_list(spec_env_lookup(map, "Categories"@)),
        implements: spec_list(spec_env_lookup(map, "Implements"@)),
        keywords: spec_locale_strings(map, "Keywords"@),
        startup_notify: spec_bool(spec_env_lookup(map, "StartupNotify"@)),
        startup_wm_class: spec_env_lookup(map, "StartupWMClass"@),
        url: spec_env_lookup(map, "URL"@),
        prefers_non_default_gpu: spec_bool(spec_env_lookup(map, "PrefersNonDefaultGPU"@)),
    }
}

fn get_string(map: &Vec<(String, String)>, key: &str) -> (r: Option<String>)
    ensures
        opt_view(r) == spec_env_lookup(pair_views(map@), key@),
{
    match env_lookup(map, key) {
        Some(v) => Some(v.clone()),
        None => None,
    }
}

fn get_bool(map: &Vec<(String, String)>, key: &str) -> (r: Option<bool>)
    ensures
        r == spec_bool(spec_env_lookup(pair_views(map@), key@)),
{
    match env_lookup(map, key) {
        Some(v) => if same_text(v.as_str(), "true") {
            Some(true)
        } else if same_text(v.as_str(), "false") {
            Some(false)
        } else {
            None
        },
        None => None,
    }
}

fn get_list(map: &Vec<(String, String)>, key: &str) -> (r: Option<Vec<String>>)
    ensures
        opt_list_view(r) == spec_list(spec_env_lookup(pair_views(map@), key@)),
{
    match env_lookup(map, key) {
        Some(v) => Some(parse_strings(v.as_str())),
        None => None,
    }
}

/// The registered desktop environments.
pub open spec fn spec_desktops() -> Seq<Seq<char>> {
    seq![
        "GNOME"@,
        "KDE"@,
        "LXDE"@,
        "MATE"@,
        "Razor"@,
        "ROX"@,
        "TDE"@,
        "Unity"@,
        "XFCE"@,
        "Old"@,
    ]
}

fn desktops() -> (r: Vec<&'static str>)
    ensures
        str_views(r@) == spec_desktops(),
{
    let r = vec!["GNOME", "KDE", "LXDE", "MATE", "Razor", "ROX", "TDE", "Unity", "XFCE", "Old"];
    assert(str_views(r@) =~= spec_desktops());
    r
}

/// Whether `x` is a registered desktop environment or an extension (`X-`).
pub open spec fn spec_registered_desktop(x: Seq<char>) -> bool {
    spec_desktops().contains(x) || spec_starts_with(x, "X-"@)
}

/// A warning for each unregistered desktop environment of `items`.
pub open spec fn spec_show_in_warnings(items: Seq<Seq<char>>) -> Seq<Seq<char>>
    decreases items.len(),
{
    if items.len() == 0 {
        Seq::empty()
    } else if spec_registered_desktop(items.last()) {
        spec_show_in_warnings(items.drop_last())
    } else {
        spec_show_in_warnings(items.drop_last()).push(
            "'"@ + items.last() + "' is not a registered OnlyShowIn value"@,
        )
    }
}

/// The outcome of checking an `OnlyShowIn` or `NotShowIn` list.
pub open spec fn spec_check_show_in(items: Option<Seq<Seq<char>>>) -> Option<Seq<Seq<char>>> {
    match items {
        Some(its) => if spec_show_in_warnings(its).len() > 0 {
            Some(spec_show_in_warnings(its))
        } else {
            None
        },
        None => None,
    }
}

fn check_show_in(items: &Option<Vec<String>>) -> (r: Result<(), Error>)
    ensures
        outcome(r) == spec_check_show_in(opt_list_view(*items)),
{
    match items {
        None => Ok(()),
        Some(its) => {
            let valid = desktops();
            let mut warnings: Vec<String> = Vec::new();
            let mut i: usize = 0;
            while i < its.len()
                invariant
                    i <= its@.len(),
                    str_views(valid@) == spec_desktops(),
                    views(warnings@) == spec_show_in_warnings(views(its@).subrange(0, i as int)),
                decreases its.len() - i,
            {
                let item = its[i].as_str();
                proof {
                    assert(views(its@).subrange(0, i + 1).drop_last() =~= views(its@).subrange(
                        0,
                        i as int,
                    ));
                    assert(views(its@).subrange(0, i + 1).last() == item@);
                }
                if !is_one_of(&valid, item) && !starts_with(item, "X-") {
                    let ghost before = warnings@;
                    let w = concat3("'", item, "' is not a registered OnlyShowIn value");
                    warnings.push(w);
                    proof {
                        assert(views(warnings@) =~= views(before).push(w@));
                    }
                }
                i = i + 1;
            }
            proof {
                assert(views(its@).subrange(0, its@.len() as int) =~= views(its@));
            }
            if warnings.len() > 0 {
                Err(Error(warnings))
            } else {
                Ok(())
            }
        },
    }
}

/// A check's result as a plain value: nothing when it passed, else its
/// messages.
pub open spec fn outcome(r: Result<(), Error>) -> Option<Seq<Seq<char>>> {
    match r {
        Ok(_) => None,
        Err(e) => Some(e@),
    }
}

/// The warnings about the value `t` of `Type`, given whether `Exec` and `URL`
/// are set.
pub open spec fn spec_type_warnings(t: Seq<char>, has_exec: bool, has_url: bool) -> Seq<Seq<char>> {
    let kind = if t == "ServiceType"@ || t == "Service"@ || t == "FSDevice"@ {
        seq!["Type="@ + t + " is a KDE extension"@]
    } else if t == "MimeType"@ {
        seq!["Type=MimeType is deprecated"@]
    } else if !(t == "Application"@ || t == "Link"@ || t == "Directory"@) {
        seq!["Value of key 'Type' must be Application, Link or Directory, but is "@ + t]
    } else {
        Seq::empty()
    };
    let needs_exec = if t == "Application"@ && !has_exec {
        seq!["Type=Application needs 'Exec' key"@]
    } else {
        Seq::empty()
    };
    let url = if t == "Link"@ && !has_url {
        seq!["Type=Link needs 'URL' key"@]
    } else {
        Seq::empty()
    };
    kind + needs_exec + url
}

/// The outcome of checking the keys of a group: its desktop lists first,
/// then its type.
pub open spec fn spec_check_keys(e: EntryView) -> Option<Seq<Seq<char>>> {
    if spec_check_show_in(e.only_show_in) is Some {
        spec_check_show_in(e.only_show_in)
    } else if spec_check_show_in(e.not_show_in) is Some {
        spec_check_show_in(e.not_show_in)
    } else {
        match e.type_string {
            Some(t) => {
                let w = spec_type_warnings(t, e.exec_command is Some, e.url is Some);
                if w.len() > 0 {
                    Some(w)
                } else {
                    None
                }
            },
            None => None,
        }
    }
}

/// Whether `g` is a valid group header: the main group, an action, or an
/// ASCII extension group.
pub open spec fn spec_valid_group(g: Seq<char>) -> bool {
    g == DEFAULT_GROUP@ || regex_match(ACTION_GROUP_PATTERN@, g) == Some(true) || (regex_match(
        EXTENSION_GROUP_PATTERN@,
        g,
    ) == Some(true) && is_ascii_chars(g))
}

/// The outcome of checking the header of a group.
pub open spec fn spec_check_group(e: EntryView) -> Option<Seq<Seq<char>>> {
    if !spec_valid_group(e.entry_type) {
        Some(seq!["Invalid Group name: "@ + e.entry_type])
    } else if e.only_show_in is Some && e.not_show_in is Some {
        Some(seq!["Group may either have OnlyShowIn or NotShowIn, but not both"@])
    } else {
        None
    }
}

/// The outcome of checking the required keys and deprecated headers.
pub open spec fn spec_check_extras(e: EntryView) -> Option<Seq<Seq<char>>> {
    let kde = if e.entry_type == "KDE Desktop Entry"@ {
        seq!["[KDE Desktop Entry] Header is deprecated"@]
    } else {
        Seq::empty()
    };
    let ty = if e.type_string is None && e.entry_type == DEFAULT_GROUP@ {
        seq!["Key 'Type' is missing"@]
    } else {
        Seq::empty()
    };
    let name = if e.name is None {
        seq!["Key 'Name' is missing"@]
    } else {
        Seq::empty()
    };
    let w = kde + ty + name;
    if w.len() > 0 {
        Some(w)
    } else {
        None
    }
}

/// The outcome of checking `TryExec`, given whether its executable was found.
pub open spec fn spec_check_try_exec(e: EntryView, found: bool) -> Option<Seq<Seq<char>>> {
    match e.try_exec {
        Some(t) => if found {
            None
        } else {
            Some(seq!["Could not find "@ + t])
        },
        None => None,
    }
}

/// The main categories.
pub open spec fn spec_main_categories() -> Seq<Seq<char>> {
    seq![
        "AudioVideo"@,
        "Audio"@,
        "Video"@,
        "Development"@,
        "Education"@,
        "Game"@,
        "Graphics"@,
        "Network"@,
        "Office"@,
        "Science"@,
        "Settings"@,
        "System"@,
        "Utility"@,
    ]
}

fn main_categories() -> (r: Vec<&'static str>)
    ensures
        str_views(r@) == spec_main_categories(),
{
    let r = vec![
        "AudioVideo",
        "Audio",
        "Video",
        "Development",
        "Education",
        "Game",
        "Graphics",
        "Network",
        "Office",
        "Science",
        "Settings",
        "System",
        "Utility",
    ];
    assert(str_views(r@) =~= spec_main_categories());
    r
}

/// The additional categories.
pub open spec fn spec_additional_categories() -> Seq<Seq<char>> {
    seq![
        "Building"@, "Debugger"@, "IDE"@, "GUIDesigner"@, "Profiling"@, "RevisionControl"@,
        "Translation"@, "Calendar"@, "ContactManagement"@, "Database"@, "Dictionary"@, "Chart"@,
        "Email"@, "Finance"@, "FlowChart"@, "PDA"@, "ProjectManagement"@, "Presentation"@,
        "Spreadsheet"@, "WordProcessor"@, "2DGraphics"@, "VectorGraphics"@, "RasterGraphics"@,
        "3DGraphics"@, "Scanning"@, "OCR"@, "Photography"@, "Publishing"@, "Viewer"@,
        "TextTools"@, "DesktopSettings"@, "HardwareSettings"@, "Printing"@, "PackageManager"@,
        "Dialup"@, "InstantMessaging"@, "Chat"@, "IRCClient"@, "Feed"@, "FileTransfer"@,
        "HamRadio"@, "News"@, "P2P"@, "RemoteAccess"@, "Telephony"@, "TelephonyTools"@,
        "VideoConference"@, "WebBrowser"@, "WebDevelopment"@, "Midi"@, "Mixer"@, "Sequencer"@,
        "Tuner"@, "TV"@, "AudioVideoEditing"@, "Player"@, "Recorder"@, "DiscBurning"@,
        "ActionGame"@, "AdventureGame"@, "ArcadeGame"@, "BoardGame"@, "BlocksGame"@,
        "CardGame"@, "KidsGame"@, "LogicGame"@, "RolePlaying"@, "Shooter"@, "Simulation"@,
        "SportsGame"@, "StrategyGame"@, "Art"@, "Construction"@, "Music"@, "Languages"@,
        "ArtificialIntelligence"@, "Astronomy"@, "Biology"@, "Chemistry"@, "ComputerScience"@,
        "DataVisualization"@, "Economy"@, "Electricity"@, "Geography"@, "Geology"@,
        "Geoscience"@, "History"@, "Humanities"@, "ImageProcessing"@, "Literature"@, "Maps"@,
        "Math"@, "NumericalAnalysis"@, "MedicalSoftware"@, "Physics"@, "Robotics"@,
        "Spirituality"@, "Sports"@, "ParallelComputing"@, "Amusement"@, "Archiving"@,
        "Compression"@, "Electronics"@, "Emulator"@, "Engineering"@, "FileTools"@,
        "FileManager"@, "TerminalEmulator"@, "Filesystem"@, "Monitor"@, "Security"@,
        "Accessibility"@, "Calculator"@, "Clock"@, "TextEditor"@, "Documentation"@, "Adult"@,
        "Core"@, "KDE"@, "GNOME"@, "XFCE"@, "GTK"@, "Qt"@, "Motif"@, "Java"@, "ConsoleOnly"@,
    ]
}

fn additional_categories() -> (r: Vec<&'static str>)
    ensures
        str_views(r@) == spec_additional_categories(),
{
    let r = vec![
        "Building", "Debugger", "IDE", "GUIDesigner", "Profiling", "RevisionControl",
        "Translation", "Calendar", "ContactManagement", "Database", "Dictionary", "Chart",
        "Email", "Finance", "FlowChart", "PDA", "ProjectManagement", "Presentation",
        "Spreadsheet", "WordProcessor", "2DGraphics", "VectorGraphics", "RasterGraphics",
        "3DGraphics", "Scanning", "OCR", "Photography", "Publishing", "Viewer", "TextTools",
        "DesktopSettings", "HardwareSettings", "Printing", "PackageManager", "Dialup",
        "InstantMessaging", "Chat", "IRCClient", "Feed", "FileTransfer", "HamRadio", "News",
        "P2P", "RemoteAccess", "Telephony", "TelephonyTools", "VideoConference", "WebBrowser",
        "WebDevelopment", "Midi", "Mixer", "Sequencer", "Tuner", "TV", "AudioVideoEditing",
        "Player", "Recorder", "DiscBurning", "ActionGame", "AdventureGame", "ArcadeGame",
        "BoardGame", "BlocksGame", "CardGame", "KidsGame", "LogicGame", "RolePlaying", "Shooter",
        "Simulation", "SportsGame", "StrategyGame", "Art", "Construction", "Music", "Languages",
        "ArtificialIntelligence", "Astronomy", "Biology", "Chemistry", "ComputerScience",
        "DataVisualization", "Economy", "Electricity", "Geography", "Geology", "Geoscience",
        "History", "Humanities", "ImageProcessing", "Literature", "Maps", "Math",
        "NumericalAnalysis", "MedicalSoftware", "Physics", "Robotics", "Spirituality", "Sports",
        "ParallelComputing", "Amusement", "Archiving", "Compression", "Electronics", "Emulator",
        "Engineering", "FileTools", "FileManager", "TerminalEmulator", "Filesystem", "Monitor",
        "Security", "Accessibility", "Calculator", "Clock", "TextEditor", "Documentation",
        "Adult", "Core", "KDE", "GNOME", "XFCE", "GTK", "Qt", "Motif", "Java", "ConsoleOnly",
    ];
    assert(str_views(r@) =~= spec_additional_categories());
    r
}

/// Whether any of `cs` is a main category.
pub open spec fn spec_any_main(cs: Seq<Seq<char>>) -> bool
    decreases cs.len(),
{
    cs.len() > 0 && (spec_any_main(cs.drop_last()) || spec_main_categories().contains(cs.last()))
}

/// A warning for each of `cs` that is neither registered nor an extension.
pub open spec fn spec_category_warnings(cs: Seq<Seq<char>>) -> Seq<Seq<char>>
    decreases cs.len(),
{
    if cs.len() == 0 {
        Seq::empty()
    } else {
        let x = cs.last();
        if spec_starts_with(x, "X-"@) || spec_main_categories().contains(x)
            || spec_additional_categories().contains(x) {
            spec_category_warnings(cs.drop_last())
        } else {
            spec_category_warnings(cs.drop_last()).push(x + " is not a registered Category"@)
        }
    }
}

/// The outcome of checking the categories: one main category is required,
/// and each must be registered or an extension.
pub open spec fn spec_check_categories(e: EntryView) -> Option<Seq<Seq<char>>> {
    match e.categories {
        Some(cs) => if !spec_any_main(cs) {
            Some(seq!["Missing main category"@])
        } else if spec_category_warnings(cs).len() > 0 {
            Some(spec_category_warnings(cs))
        } else {
            None
        },
        None => None,
    }
}

/// The outcome of validating a group, given whether the executable of its
/// `TryExec` was found: the first check that fails, in a fixed order.
pub open spec fn spec_validate(e: EntryView, found: bool) -> Option<Seq<Seq<char>>> {
    if spec_check_keys(e) is Some {
        spec_check_keys(e)
    } else if spec_check_group(e) is Some {
        spec_check_group(e)
    } else if spec_check_extras(e) is Some {
        spec_check_extras(e)
    } else if spec_check_try_exec(e, found) is Some {
        spec_check_try_exec(e, found)
    } else if spec_check_show_in(e.not_show_in) is Some {
        spec_check_show_in(e.not_show_in)
    } else if spec_check_show_in(e.only_show_in) is Some {
        spec_check_show_in(e.only_show_in)
    } else {
        spec_check_categories(e)
    }
}

fn messages1(a: String) -> (r: Result<(), Error>)
    ensures
        outcome(r) == Some(seq![a@]),
{
    Err(Error::from_message(a))
}

fn push_message(w: &mut Vec<String>, m: String)
    ensures
        views(final(w)@) == views(old(w)@).push(m@),
{
    let ghost before = w@;
    let ghost mv = m@;
    w.push(m);
    proof {
        assert(views(w@) =~= views(before).push(mv));
    }
}

impl DesktopEntry {
    /// The group named `section` with the keys of `map`, unchecked.
    pub fn from_fields(section: &str, map: &Vec<(String, String)>) -> (r: DesktopEntry)
        ensures
            r@ == spec_parse_entry(section@, pair_views(map@)),
    {
        let name = LocaleString::from_hashmap("Name", map);
        let generic_name = LocaleString::from_hashmap("GenericName", map);
        let comment = LocaleString::from_hashmap("Comment", map);
        let keywords = LocaleStrings::from_hashmap("Keywords", map);
        DesktopEntry {
            entry_type: String::from_str(section),
            type_string: get_string(map, "Type"),
            version: get_string(map, "Version"),
            name,
            generic_name,
            no_display: get_bool(map, "NoDisplay"),
            comment,
            icon: get_string(map, "Icon"),
            hidden: get_bool(map, "Hidden"),
            only_show_in: get_list(map, "OnlyShowIn"),
            not_show_in: get_list(map, "NotShowIn"),
            dbus_activatable: get_bool(map, "DBusActivatable"),
            try_exec: get_string(map, "TryExec"),
            exec_command: get_string(map, "Exec"),
            path: get_string(map, "Path"),
            terminal: get_bool(map, "Terminal"),
            actions: get_list(map, "Actions"),
            mime_type: get_list(map, "MimeType"),
            categories: get_list(map, "Categories"),
            implements: get_list(map, "Implements"),
            keywords,
            startup_notify: get_bool(map, "StartupNotify"),
            startup_wm_class: get_string(map, "StartupWMClass"),
            url: get_string(map, "URL"),
            prefers_non_default_gpu: get_bool(map, "PrefersNonDefaultGPU"),
        }
    }

    /// Checks the `NotShowIn` list.
    pub fn check_not_show_in(&self) -> (r: Result<(), Error>)
        ensures
            outcome(r) == spec_check_show_in(self@.not_show_in),
    {
        check_show_in(&self.not_show_in)
    }

    /// Checks the `OnlyShowIn` list.
    pub fn check_only_show_in(&self) -> (r: Result<(), Error>)
        ensures
            outcome(r) == spec_check_show_in(self@.only_show_in),
    {
        check_show_in(&self.only_show_in)
    }

    /// Checks the desktop lists and the value of `Type`.
    pub fn check_keys(&self) -> (r: Result<(), Error>)
        ensures
            outcome(r) == spec_check_keys(self@),
    {
        let mut warnings: Vec<String> = Vec::new();
        let ghost e = self@;
        match &self.type_string {
            Some(t) => {
                let t = t.as_str();
                if same_text(t, "ServiceType") || same_text(t, "Service") || same_text(t, "FSDevice") {
                    push_message(&mut warnings, concat3("Type=", t, " is a KDE extension"));
                } else if same_text(t, "MimeType") {
                    push_message(&mut warnings, String::from_str("Type=MimeType is deprecated"));
                } else if !(same_text(t, "Application") || same_text(t, "Link") || same_text(
                    t,
                    "Directory",
                )) {
                    push_message(
                        &mut warnings,
                        concat("Value of key 'Type' must be Application, Link or Directory, but is ", t),
                    );
                }
                let ghost w1 = views(warnings@);
                if same_text(t, "Application") && self.exec_command.is_none() {
                    push_message(&mut warnings, String::from_str("Type=Application needs 'Exec' key"));
                }
                let ghost w2 = views(warnings@);
                if same_text(t, "Link") && self.url.is_none() {
                    push_message(&mut warnings, String::from_str("Type=Link needs 'URL' key"));
                }
                proof {
                    let sw = spec_type_warnings(t@, e.exec_command is Some, e.url is Some);
                    assert(views(warnings@) =~= sw);
                }
            },
            None => {
                proof {
                    assert(views(warnings@) =~= Seq::<Seq<char>>::empty());
                }
            },
        }
        if self.only_show_in.is_some() {
            let c = check_show_in(&self.only_show_in);
            if c.is_err() {
                return c;
            }
        }
        if self.not_show_in.is_some() {
            let c = check_show_in(&self.not_show_in);
            if c.is_err() {
                return c;
            }
        }
        if warnings.len() > 0 {
            Err(Error(warnings))
        } else {
            Ok(())
        }
    }

    /// Checks the header of the group, and that it does not have both desktop
    /// lists.
    pub fn check_group(&self) -> (r: Result<(), Error>)
        ensures
            outcome(r) == spec_check_group(self@),
    {
        let g = self.entry_type.as_str();
        let valid = same_text(g, DEFAULT_GROUP) || regex_is_match(ACTION_GROUP_PATTERN, g) == Some(
            true,
        ) || (regex_is_match(EXTENSION_GROUP_PATTERN, g) == Some(true) && g.is_ascii());
        if !valid {
            messages1(concat("Invalid Group name: ", g))
        } else if self.only_show_in.is_some() && self.not_show_in.is_some() {
            messages1(String::from_str("Group may either have OnlyShowIn or NotShowIn, but not both"))
        } else {
            Ok(())
        }
    }

    /// Whether this is the main group.
    pub fn is_default_group(&self) -> (r: bool)
        ensures
            r == (self@.entry_type == DEFAULT_GROUP@),
    {
        same_text(self.entry_type.as_str(), DEFAULT_GROUP)
    }

    /// Checks for a deprecated header and for missing required keys.
    pub fn check_extras(&self) -> (r: Result<(), Error>)
        ensures
            outcome(r) == spec_check_extras(self@),
    {
        let mut err: Vec<String> = Vec::new();
        if same_text(self.entry_type.as_str(), "KDE Desktop Entry") {
            push_message(&mut err, String::from_str("[KDE Desktop Entry] Header is deprecated"));
        }
        if self.type_string.is_none() && self.is_default_group() {
            push_message(&mut err, String::from_str("Key 'Type' is missing"));
        }
        if self.name.is_none() {
            push_message(&mut err, String::from_str("Key 'Name' is missing"));
        }
        proof {
            let e = self@;
            let kde = if e.entry_type == "KDE Desktop Entry"@ {
                seq!["[KDE Desktop Entry] Header is deprecated"@]
            } else {
                Seq::<Seq<char>>::empty()
            };
            let ty = if e.type_string is None && e.entry_type == DEFAULT_GROUP@ {
                seq!["Key 'Type' is missing"@]
            } else {
                Seq::<Seq<char>>::empty()
            };
            let name = if e.name is None {
                seq!["Key 'Name' is missing"@]
            } else {
                Seq::<Seq<char>>::empty()
            };
            assert(views(err@) =~= kde + ty + name);
        }
        if err.len() > 0 {
            Err(Error(err))
        } else {
            Ok(())
        }
    }

    /// Checks `TryExec`, given whether its executable was found.
    pub fn check_try_exec_with(&self, found: bool) -> (r: Result<(), Error>)
        ensures
            outcome(r) == spec_check_try_exec(self@, found),
    {
        match &self.try_exec {
            Some(t) => if found {
                Ok(())
            } else {
                messages1(concat("Could not find ", t.as_str()))
            },
            None => Ok(()),
        }
    }

    /// Checks that the executable of `TryExec`, if set, is found on the
    /// search path.
    pub fn check_try_exec(&self) -> (r: Result<(), Error>)
        ensures
            outcome(r) == spec_check_try_exec(self@, true) || outcome(r) == spec_check_try_exec(
                self@,
                false,
            ),
    {
        match &self.try_exec {
            Some(t) => {
                let found = executable_found(t.as_str());
                self.check_try_exec_with(found)
            },
            None => Ok(()),
        }
    }

    /// Checks the categories.
    pub fn check_categories(&self) -> (r: Result<(), Error>)
        ensures
            outcome(r) == spec_check_categories(self@),
    {
        match &self.categories {
            None => Ok(()),
            Some(cs) => {
                let main = main_categories();
                let additional = additional_categories();
                let mut any_main = false;
                let mut warnings: Vec<String> = Vec::new();
                let mut i: usize = 0;
                while i < cs.len()
                    invariant
                        i <= cs@.len(),
                        str_views(main@) == spec_main_categories(),
                        str_views(additional@) == spec_additional_categories(),
                        any_main == spec_any_main(views(cs@).subrange(0, i as int)),
                        views(warnings@) == spec_category_warnings(
                            views(cs@).subrange(0, i as int),
                        ),
                    decreases cs.len() - i,
                {
                    let x = cs[i].as_str();
                    proof {
                        assert(views(cs@).subrange(0, i + 1).drop_last() =~= views(cs@).subrange(
                            0,
                            i as int,
                        ));
                        assert(views(cs@).subrange(0, i + 1).last() == x@);
                    }
                    let is_main = is_one_of(&main, x);
                    if is_main {
                        any_main = true;
                    }
                    if !starts_with(x, "X-") && !is_main && !is_one_of(&additional, x) {
                        push_message(&mut warnings, concat(x, " is not a registered Category"));
                    }
                    i = i + 1;
                }
                proof {
                    assert(views(cs@).subrange(0, cs@.len() as int) =~= views(cs@));
                }
                if !any_main {
                    messages1(String::from_str("Missing main category"))
                } else if warnings.len() > 0 {
                    Err(Error(warnings))
                } else {
                    Ok(())
                }
            },
        }
    }

    /// Validates the group, given whether the executable of `TryExec` was
    /// found; the error holds the warnings of the first check that fails.
    pub fn validate_with(&self, found: bool) -> (r: Result<(), Error>)
        ensures
            outcome(r) == spec_validate(self@, found),
    {
        let c = self.check_keys();
        if c.is_err() {
            return c;
        }
        let c = self.check_group();
        if c.is_err() {
            return c;
        }
        let c = self.check_extras();
        if c.is_err() {
            return c;
        }
        let c = self.check_try_exec_with(found);
        if c.is_err() {
            return c;
        }
        let c = self.check_not_show_in();
        if c.is_err() {
            return c;
        }
        let c = self.check_only_show_in();
        if c.is_err() {
            return c;
        }
        self.check_categories()
    }

    /// Validates the group, looking its `TryExec` executable up on the search
    /// path; the error holds the warnings of the first check that fails.
    pub fn validate(&self) -> (r: Result<(), Error>)
        ensures
            outcome(r) == spec_validate(self@, true) || outcome(r) == spec_validate(self@, false),
    {
        match &self.try_exec {
            Some(t) => {
                let found = executable_found(t.as_str());
                self.validate_with(found)
            },
            None => self.validate_with(true),
        }
    }

    /// The group named `section` with the keys of `map`, when it validates.
    pub fn from_hash_map(section: &str, map: &Vec<(String, String)>) -> (r: Result<
        DesktopEntry,
        Error,
    >)
        ensures
            match r {
                Ok(e) => e@ == spec_parse_entry(section@, pair_views(map@)) && (spec_validate(
                    e@,
                    true,
                ) is None || spec_validate(e@, false) is None),
                Err(err) => Some(err@) == spec_validate(
                    spec_parse_entry(section@, pair_views(map@)),
                    true,
                ) || Some(err@) == spec_validate(
                    spec_parse_entry(section@, pair_views(map@)),
                    false,
                ),
            },
    {
        let entry = DesktopEntry::from_fields(section, map);
        match entry.validate() {
            Ok(()) => Ok(entry),
            Err(e) => Err(e),
        }
    }

    /// The header of the group.
    pub fn get_header(&self) -> (r: String)
        ensures
            r@ == self@.entry_type,
    {
        self.entry_type.clone()
    }

    /// The name of the group for the default locale.
    pub fn get_name(&self) -> (r: Result<String, Error>)
        ensures
            match self@.name {
                Some(n) => match spec_value_for(n, None) {
                    Some(v) => r matches Ok(s) && s@ == v,
                    None => r matches Err(e) && e@ == seq!["Default locale is missing"@],
                },
                None => r matches Err(e) && e@ == seq!["Could not get name"@],
            },
    {
        match &self.name {
            Some(n) => n.get_default(),
            None => Err(Error::from_message(String::from_str("Could not get name"))),
        }
    }

    /// The value of `Type`.
    pub fn get_type(&self) -> (r: Result<String, Error>)
        ensures
            match self@.type_string {
                Some(t) => r matches Ok(s) && s@ == t,
                None => r matches Err(e) && e@ == seq!["Could not read Type"@],
            },
    {
        match &self.type_string {
            Some(t) => Ok(t.clone()),
            None => Err(Error::from_message(String::from_str("Could not read Type"))),
        }
    }

    /// The value of `Exec`.
    pub fn get_exec(&self) -> (r: Result<String, Error>)
        ensures
            match self@.exec_command {
                Some(t) => r matches Ok(s) && s@ == t,
                None => r matches Err(e) && e@ == seq!["Could not read Exec"@],
            },
    {
        match &self.exec_command {
            Some(t) => Ok(t.clone()),
            None => Err(Error::from_message(String::from_str("Could not read Exec"))),
        }
    }

    /// The value of `URL`.
    pub fn get_url(&self) -> (r: Result<String, Error>)
        ensures
            match self@.url {
                Some(t) => r matches Ok(s) && s@ == t,
                None => r matches Err(e) && e@ == seq!["Could not read URL"@],
            },
    {
        match &self.url {
            Some(t) => Ok(t.clone()),
            None => Err(Error::from_message(String::from_str("Could not read URL"))),
        }
    }
}


/// The name of what `ini::Ini::load_from_str` makes of a text: its sections
/// in order, each with its name (none for the general section) and its
/// key/value pairs in order, or nothing when the text does not parse.
pub uninterp spec fn ini_sections(text: Seq<char>) -> Option<
    Seq<(Option<Seq<char>>, Seq<(Seq<char>, Seq<char>)>)>,
>;

pub open spec fn section_views(v: Seq<(Option<String>, Vec<(String, String)>)>) -> Seq<
    (Option<Seq<char>>, Seq<(Seq<char>, Seq<char>)>),
> {
    v.map_values(|s: (Option<String>, Vec<(String, String)>)| (opt_view(s.0), pair_views(s.1@)))
}

/// Relies on `ini::Ini::load_from_str` and on iterating the sections and
/// properties of its result.
#[verifier::external_body]
fn load_ini(text: &str) -> (r: Option<Vec<(Option<String>, Vec<(String, String)>)>>)
    ensures
        match r {
            Some(v) => ini_sections(text@) == Some(section_views(v@)),
            None => ini_sections(text@) is None,
        },
{
    let ini = match ini::Ini::load_from_str(text) {
        Ok(ini) => ini,
        Err(_) => return None,
    };
    let mut sections = Vec::new();
    for (name, props) in ini.iter() {
        let mut entries = Vec::new();
        for (k, v) in props.iter() {
            entries.push((k.to_string(), v.to_string()));
        }
        sections.push((name.map(|n| n.to_string()), entries));
    }
    Some(sections)
}

/// The index of the first pair of `es`, from `i` on, whose key is `k`.
pub open spec fn spec_position_from(es: Seq<(Seq<char>, Seq<char>)>, k: Seq<char>, i: int) -> Option<
    int,
>
    decreases es.len() - i,
{
    if i < 0 || i >= es.len() {
        None
    } else if es[i].0 == k {
        Some(i)
    } else {
        spec_position_from(es, k, i + 1)
    }
}

/// The pairs of `es` with each key once, where it first occurs, holding the
/// last value given to it.
pub open spec fn spec_collapse(es: Seq<(Seq<char>, Seq<char>)>) -> Seq<(Seq<char>, Seq<char>)>
    decreases es.len(),
{
    if es.len() == 0 {
        Seq::empty()
    } else {
        let acc = spec_collapse(es.drop_last());
        match spec_position_from(acc, es.last().0, 0) {
            Some(j) => acc.update(j, es.last()),
            None => acc.push(es.last()),
        }
    }
}

proof fn lemma_position_bounds(es: Seq<(Seq<char>, Seq<char>)>, k: Seq<char>, i: int)
    ensures
        spec_position_from(es, k, i) matches Some(j) ==> 0 <= j < es.len(),
    decreases es.len() - i,
{
    if 0 <= i < es.len() && es[i].0 != k {
        lemma_position_bounds(es, k, i + 1);
    }
}

/// Collapses repeated keys: each key once, with its last value.
fn collapse(entries: &Vec<(String, String)>) -> (r: Vec<(String, String)>)
    ensures
        pair_views(r@) == spec_collapse(pair_views(entries@)),
{
    let mut out: Vec<(String, String)> = Vec::new();
    let mut i: usize = 0;
    let ghost ev = pair_views(entries@);
    proof {
        assert(ev.subrange(0, 0) =~= Seq::<(Seq<char>, Seq<char>)>::empty());
        assert(pair_views(out@) =~= Seq::<(Seq<char>, Seq<char>)>::empty());
    }
    while i < entries.len()
        invariant
            i <= entries@.len(),
            ev == pair_views(entries@),
            pair_views(out@) == spec_collapse(ev.subrange(0, i as int)),
        decreases entries.len() - i,
    {
        let ghost acc = pair_views(out@);
        let key = entries[i].0.as_str();
        proof {
            assert(ev.subrange(0, i + 1).drop_last() =~= ev.subrange(0, i as int));
            assert(ev.subrange(0, i + 1).last() == ev[i as int]);
        }
        let mut j: usize = 0;
        let mut found = false;
        while j < out.len()
            invariant_except_break
                !found,
                j <= out@.len(),
                acc == pair_views(out@),
                spec_position_from(acc, key@, 0) == spec_position_from(acc, key@, j as int),
            ensures
                acc == pair_views(out@),
                found ==> j < out@.len() && spec_position_from(acc, key@, 0) == Some(j as int),
                !found ==> spec_position_from(acc, key@, 0) is None,
            decreases out.len() - j,
        {
            if same_text(out[j].0.as_str(), key) {
                found = true;
                break;
            }
            j = j + 1;
        }
        let entry = (entries[i].0.clone(), entries[i].1.clone());
        if found {
            out.set(j, entry);
            proof {
                assert(pair_views(out@) =~= acc.update(j as int, ev[i as int]));
            }
        } else {
            out.push(entry);
            proof {
                assert(pair_views(out@) =~= acc.push(ev[i as int]));
            }
        }
        i = i + 1;
    }
    proof {
        assert(ev.subrange(0, entries@.len() as int) =~= ev);
    }
    out
}

/// The groups of a desktop file from the sections of its text: the general
/// section must be empty and is left out; each other section becomes a
/// group with its keys collapsed.
pub open spec fn spec_groups_of(secs: Seq<(Option<Seq<char>>, Seq<(Seq<char>, Seq<char>)>)>) -> Result<
    Seq<(Seq<char>, Seq<(Seq<char>, Seq<char>)>)>,
    Seq<char>,
>
    decreases secs.len(),
{
    if secs.len() == 0 {
        Ok(Seq::empty())
    } else {
        match spec_groups_of(secs.drop_last()) {
            Err(m) => Err(m),
            Ok(acc) => match secs.last().0 {
                Some(name) => Ok(acc.push((name, spec_collapse(secs.last().1)))),
                None => if secs.last().1.len() == 0 {
                    Ok(acc)
                } else {
                    Err("Could not read None"@)
                },
            },
        }
    }
}

pub open spec fn group_views(v: Seq<(String, Vec<(String, String)>)>) -> Seq<
    (Seq<char>, Seq<(Seq<char>, Seq<char>)>),
> {
    v.map_values(|g: (String, Vec<(String, String)>)| (g.0@, pair_views(g.1@)))
}

proof fn lemma_groups_of_fails(secs: Seq<(Option<Seq<char>>, Seq<(Seq<char>, Seq<char>)>)>, i: int)
    requires
        0 <= i <= secs.len(),
        spec_groups_of(secs.subrange(0, i)) is Err,
    ensures
        spec_groups_of(secs) == spec_groups_of(secs.subrange(0, i)),
    decreases secs.len() - i,
{
    if i < secs.len() {
        assert(secs.subrange(0, i + 1).drop_last() =~= secs.subrange(0, i));
        lemma_groups_of_fails(secs, i + 1);
    } else {
        assert(secs.subrange(0, i) =~= secs);
    }
}

/// The groups of a desktop file from the sections of its text.
fn groups_of(secs: &Vec<(Option<String>, Vec<(String, String)>)>) -> (r: Result<
    Vec<(String, Vec<(String, String)>)>,
    Error,
>)
    ensures
        match spec_groups_of(section_views(secs@)) {
            Ok(gs) => r matches Ok(v) && group_views(v@) == gs,
            Err(m) => r matches Err(e) && e@ == seq![m],
        },
{
    let ghost sv = section_views(secs@);
    let mut out: Vec<(String, Vec<(String, String)>)> = Vec::new();
    let mut i: usize = 0;
    proof {
        assert(sv.subrange(0, 0) =~= Seq::<(Option<Seq<char>>, Seq<(Seq<char>, Seq<char>)>)>::empty());
        assert(group_views(out@) =~= Seq::<(Seq<char>, Seq<(Seq<char>, Seq<char>)>)>::empty());
    }
    while i < secs.len()
        invariant
            i <= secs@.len(),
            sv == section_views(secs@),
            spec_groups_of(sv.subrange(0, i as int)) == Ok::<
                Seq<(Seq<char>, Seq<(Seq<char>, Seq<char>)>)>,
                Seq<char>,
            >(group_views(out@)),
        decreases secs.len() - i,
    {
        proof {
            assert(sv.subrange(0, i + 1).drop_last() =~= sv.subrange(0, i as int));
            assert(sv.subrange(0, i + 1).last() == sv[i as int]);
        }
        let sec = &secs[i];
        match &sec.0 {
            Some(name) => {
                let ghost before = out@;
                let entries = collapse(&sec.1);
                let g = (name.clone(), entries);
                out.push(g);
                proof {
                    assert(group_views(out@) =~= group_views(before).push((g.0@, pair_views(g.1@))));
                }
            },
            None => {
                if sec.1.len() > 0 {
                    proof {
                        lemma_groups_of_fails(sv, i + 1);
                        assert(sv.subrange(0, secs@.len() as int) =~= sv);
                    }
                    return Err(Error::from_message(String::from_str("Could not read None")));
                }
            },
        }
        i = i + 1;
    }
    proof {
        assert(sv.subrange(0, secs@.len() as int) =~= sv);
    }
    Ok(out)
}

/// The name of what `std::path::Path::extension` returns for a path: the
/// text after the last `.` of its file name, when there is one.
pub uninterp spec fn path_extension(p: Seq<char>) -> Option<Seq<char>>;

/// Relies on `std::path::Path::extension`: the extension of the file name of
/// the path, if it has one.
#[verifier::external_body]
fn extension_of(p: &str) -> (r: Option<String>)
    ensures
        opt_view(r) == path_extension(p@),
{
    match std::path::Path::new(p).extension() {
        Some(e) => Some(e.to_string_lossy().into_owned()),
        None => None,
    }
}

/// A loaded desktop file: the name it was loaded under and its groups.
#[derive(Debug)]
pub struct DesktopFile {
    pub filename: String,
    pub groups: Vec<DesktopEntry>,
}

/// The mathematical content of a [`DesktopFile`].
pub struct FileView {
    pub filename: Seq<char>,
    pub groups: Seq<EntryView>,
}

impl View for DesktopFile {
    type V = FileView;

    open spec fn view(&self) -> FileView {
        FileView {
            filename: self.filename@,
            groups: self.groups@.map_values(|g: DesktopEntry| g@),
        }
    }
}

/// A group passes validation for one of the two possible lookups of its
/// `TryExec` executable.
pub open spec fn spec_passes(e: EntryView) -> bool {
    spec_validate(e, true) is None || spec_validate(e, false) is None
}

/// A group fails validation with `m` for one of the two possible lookups of
/// its `TryExec` executable.
pub open spec fn spec_fails_with(e: EntryView, m: Seq<Seq<char>>) -> bool {
    Some(m) == spec_validate(e, true) || Some(m) == spec_validate(e, false)
}

/// The outcome of checking the file name and the main group of a file: the
/// name needs an extension, and the first group a `Type`.
pub open spec fn spec_check_extension(filename: Seq<char>, groups: Seq<EntryView>) -> Option<
    Seq<Seq<char>>,
> {
    if path_extension(filename) is None {
        Some(seq!["Could not convert extension of "@ + filename + " to String"@])
    } else if groups.len() == 0 {
        Some(seq!["Could not read default group"@])
    } else if groups[0].type_string is None {
        Some(seq!["key 'Type' is missing"@])
    } else {
        None
    }
}

/// The groups parsed from `gs`.
pub open spec fn spec_parse_groups(gs: Seq<(Seq<char>, Seq<(Seq<char>, Seq<char>)>)>) -> Seq<
    EntryView,
> {
    gs.map_values(|g: (Seq<char>, Seq<(Seq<char>, Seq<char>)>)| spec_parse_entry(g.0, g.1))
}

/// Whether `m` is a failure that loading the text `input` under the name
/// `filename` can end with: the text does not parse, its sections do not
/// make groups, a group fails validation, or the file name or main group is
/// rejected.
pub open spec fn spec_load_failure(filename: Seq<char>, input: Seq<char>, m: Seq<Seq<char>>) -> bool {
    match ini_sections(input) {
        None => m == seq!["Could not load ini from "@ + input],
        Some(secs) => match spec_groups_of(secs) {
            Err(msg) => m == seq![msg],
            Ok(gs) => (exists|i: int|
                0 <= i < gs.len() && spec_fails_with(#[trigger] spec_parse_groups(gs)[i], m))
                || Some(m) == spec_check_extension(filename, spec_parse_groups(gs)),
        },
    }
}

impl DesktopFile {
    /// The main group, which comes first.
    pub fn get_default_group(&self) -> (r: Option<&DesktopEntry>)
        ensures
            match r {
                Some(g) => self.groups@.len() > 0 && g == self.groups@[0],
                None => self.groups@.len() == 0,
            },
    {
        if self.groups.len() > 0 {
            Some(&self.groups[0])
        } else {
            None
        }
    }

    /// The name of the main group for the default locale.
    pub fn get_name(&self) -> (r: Result<String, Error>)
        ensures
            self@.groups.len() == 0 ==> (r matches Err(e) && e@ == seq![
                "Could not read default group"@,
            ]),
            self@.groups.len() > 0 ==> match self@.groups[0].name {
                Some(n) => match spec_value_for(n, None) {
                    Some(v) => r matches Ok(s) && s@ == v,
                    None => r matches Err(e) && e@ == seq!["Default locale is missing"@],
                },
                None => r matches Err(e) && e@ == seq!["Could not read name"@],
            },
    {
        match self.get_default_group() {
            None => Err(Error::from_message(String::from_str("Could not read default group"))),
            Some(g) => match &g.name {
                Some(n) => n.get_default(),
                None => Err(Error::from_message(String::from_str("Could not read name"))),
            },
        }
    }

    /// Checks that the file name has an extension and the main group a `Type`.
    pub fn check_extension(&self) -> (r: Result<(), Error>)
        ensures
            outcome(r) == spec_check_extension(self@.filename, self@.groups),
    {
        if extension_of(self.filename.as_str()).is_none() {
            return messages1(concat3("Could not convert extension of ", self.filename.as_str(), " to String"));
        }
        if self.groups.len() == 0 {
            return messages1(String::from_str("Could not read default group"));
        }
        if self.groups[0].type_string.is_none() {
            return messages1(String::from_str("key 'Type' is missing"));
        }
        Ok(())
    }

    /// Validates every group, in order; the error holds the warnings of the
    /// first group that fails.
    pub fn validate(&self) -> (r: Result<(), Error>)
        ensures
            r is Ok ==> forall|i: int| 0 <= i < self@.groups.len() ==> spec_passes(#[trigger] self@.groups[i]),
            r matches Err(e) ==> exists|i: int|
                0 <= i < self@.groups.len() && spec_fails_with(#[trigger] self@.groups[i], e@),
    {
        let mut i: usize = 0;
        while i < self.groups.len()
            invariant
                i <= self.groups@.len(),
                forall|j: int| 0 <= j < i ==> spec_passes(#[trigger] self@.groups[j]),
            decreases self.groups.len() - i,
        {
            let c = self.groups[i].validate();
            assert(self@.groups[i as int] == self.groups@[i as int]@);
            if c.is_err() {
                return c;
            }
            i = i + 1;
        }
        Ok(())
    }

    /// Builds the file `filename` from its groups, validating each group, the
    /// file name and the main group.
    fn from_hash_map(groups: &Vec<(String, Vec<(String, String)>)>, filename: &str) -> (r: Result<
        DesktopFile,
        Error,
    >)
        ensures
            r matches Ok(f) ==> f@.filename == filename@ && f@.groups == spec_parse_groups(
                group_views(groups@),
            ) && spec_check_extension(filename@, f@.groups) is None && forall|i: int|
                0 <= i < f@.groups.len() ==> spec_passes(#[trigger] f@.groups[i]),
            r matches Err(e) ==> (exists|i: int|
                0 <= i < groups@.len() && spec_fails_with(
                    #[trigger] spec_parse_groups(group_views(groups@))[i],
                    e@,
                )) || Some(e@) == spec_check_extension(
                filename@,
                spec_parse_groups(group_views(groups@)),
            ),
    {
        let ghost parsed = spec_parse_groups(group_views(groups@));
        let mut entries: Vec<DesktopEntry> = Vec::new();
        let mut i: usize = 0;
        while i < groups.len()
            invariant
                i <= groups@.len(),
                parsed == spec_parse_groups(group_views(groups@)),
                entries@.len() == i,
                forall|j: int| 0 <= j < i ==> #[trigger] entries@[j]@ == parsed[j],
                forall|j: int| 0 <= j < i ==> spec_passes(#[trigger] parsed[j]),
            decreases groups.len() - i,
        {
            match DesktopEntry::from_hash_map(groups[i].0.as_str(), &groups[i].1) {
                Ok(e) => {
                    entries.push(e);
                },
                Err(e) => {
                    assert(spec_fails_with(parsed[i as int], e@));
                    return Err(e);
                },
            }
            i = i + 1;
        }
        let file = DesktopFile { filename: String::from_str(filename), groups: entries };
        proof {
            assert(file@.groups =~= parsed);
        }
        match file.check_extension() {
            Ok(()) => {},
            Err(e) => {
                return Err(e);
            },
        }
        match file.validate() {
            Ok(()) => Ok(file),
            Err(e) => {
                proof {
                    let k = choose|k: int| 0 <= k < file@.groups.len() && spec_fails_with(
                        #[trigger] file@.groups[k],
                        e@,
                    );
                    assert(spec_fails_with(parsed[k], e@));
                }
                Err(e)
            },
        }
    }

    /// Loads the desktop file `filename` from its text `input`.
    pub fn from_text(filename: &str, input: &str) -> (r: Result<DesktopFile, Error>)
        ensures
            ini_sections(input@) is None ==> (r matches Err(e) && e@ == seq![
                "Could not load ini from "@ + input@,
            ]),
            r matches Ok(f) ==> ini_sections(input@) matches Some(secs) && spec_groups_of(secs) matches Ok(gs)
                && f@.filename == filename@ && f@.groups == spec_parse_groups(gs)
                && spec_check_extension(filename@, f@.groups) is None && forall|i: int|
                0 <= i < f@.groups.len() ==> spec_passes(#[trigger] f@.groups[i]),
            r matches Err(e) ==> spec_load_failure(filename@, input@, e@),
    {
        let sections = match load_ini(input) {
            Some(s) => s,
            None => {
                return messages_err(concat("Could not load ini from ", input));
            },
        };
        let groups = match groups_of(&sections) {
            Ok(g) => g,
            Err(e) => {
                return Err(e);
            },
        };
        DesktopFile::from_hash_map(&groups, filename)
    }

    /// Loads a desktop file from its text, under the name `str.desktop`.
    pub fn from_str(input: &str) -> (r: Result<DesktopFile, Error>)
        ensures
            ini_sections(input@) is None ==> (r matches Err(e) && e@ == seq![
                "Could not load ini from "@ + input@,
            ]),
            r matches Ok(f) ==> ini_sections(input@) matches Some(secs) && spec_groups_of(secs) matches Ok(gs)
                && f@.filename == "str.desktop"@ && f@.groups == spec_parse_groups(gs)
                && forall|i: int| 0 <= i < f@.groups.len() ==> spec_passes(#[trigger] f@.groups[i]),
            r matches Err(e) ==> spec_load_failure("str.desktop"@, input@, e@),
    {
        DesktopFile::from_text("str.desktop", input)
    }
}

fn messages_err(a: String) -> (r: Result<DesktopFile, Error>)
    ensures
        r matches Err(e) && e@ == seq![a@],
{
    Err(Error::from_message(a))
}


/// `"\nkey=value"` for a set value.
pub open spec fn spec_line(key: Seq<char>, v: Option<Seq<char>>) -> Seq<char> {
    match v {
        Some(s) => "\n"@ + key + "="@ + s,
        None => Seq::empty(),
    }
}

/// `"\nkey=true"` or `"\nkey=false"` for a set value.
pub open spec fn spec_bool_line(key: Seq<char>, b: Option<bool>) -> Seq<char> {
    match b {
        Some(x) => "\n"@ + key + "="@ + if x {
            "true"@
        } else {
            "false"@
        },
        None => Seq::empty(),
    }
}

/// `vs` joined with `;`.
pub open spec fn spec_join_semis(vs: Seq<Seq<char>>) -> Seq<char>
    decreases vs.len(),
{
    if vs.len() == 0 {
        Seq::empty()
    } else if vs.len() == 1 {
        vs[0]
    } else {
        spec_join_semis(vs.drop_last()) + ";"@ + vs.last()
    }
}

/// `"\nkey=a;b;"` for a set list.
pub open spec fn spec_list_line(key: Seq<char>, v: Option<Seq<Seq<char>>>) -> Seq<char> {
    match v {
        Some(vs) => "\n"@ + key + "="@ + spec_join_semis(vs) + ";"@,
        None => Seq::empty(),
    }
}

/// One line per localized value: `"\nkey[lang]=value"`, or `"\nkey=value"`
/// for the default locale.
pub open spec fn spec_locale_lines(key: Seq<char>, ls: Seq<(Option<Seq<char>>, Seq<char>)>) -> Seq<
    char,
>
    decreases ls.len(),
{
    if ls.len() == 0 {
        Seq::empty()
    } else {
        spec_locale_lines(key, ls.drop_last()) + match ls.last().0 {
            Some(l) => "\n"@ + key + "["@ + l + "]="@ + ls.last().1,
            None => "\n"@ + key + "="@ + ls.last().1,
        }
    }
}

pub open spec fn spec_opt_locale_lines(
    key: Seq<char>,
    ls: Option<Seq<(Option<Seq<char>>, Seq<char>)>>,
) -> Seq<char> {
    match ls {
        Some(s) => spec_locale_lines(key, s),
        None => Seq::empty(),
    }
}

/// One line per localized list: `"\nkey[lang]=a;b;"`, or `"\nkey=a;b"` for
/// the default locale.
pub open spec fn spec_locale_list_lines(
    key: Seq<char>,
    ls: Seq<(Option<Seq<char>>, Seq<Seq<char>>)>,
) -> Seq<char>
    decreases ls.len(),
{
    if ls.len() == 0 {
        Seq::empty()
    } else {
        spec_locale_list_lines(key, ls.drop_last()) + match ls.last().0 {
            Some(l) => "\n"@ + key + "["@ + l + "]="@ + spec_join_semis(ls.last().1) + ";"@,
            None => "\n"@ + key + "="@ + spec_join_semis(ls.last().1),
        }
    }
}

pub open spec fn spec_opt_locale_list_lines(
    key: Seq<char>,
    ls: Option<Seq<(Option<Seq<char>>, Seq<Seq<char>>)>>,
) -> Seq<char> {
    match ls {
        Some(s) => spec_locale_list_lines(key, s),
        None => Seq::empty(),
    }
}

/// The text of a group: its header, then one line per set key.
pub open spec fn spec_render_entry(e: EntryView) -> Seq<char> {
    "["@ + e.entry_type + "]"@ + spec_line("Type"@, e.type_string) + spec_line(
        "Version"@,
        e.version,
    ) + spec_line("Exec"@, e.exec_command) + spec_line("Path"@, e.path) + spec_line(
        "StartupWMClass"@,
        e.startup_wm_class,
    ) + spec_line("Url"@, e.url) + spec_line("Path"@, e.path) + spec_line("TryExec"@, e.try_exec)
        + spec_line("Icon"@, e.icon) + spec_opt_locale_lines("Name"@, e.name)
        + spec_opt_locale_lines("GenericName"@, e.generic_name) + spec_opt_locale_lines(
        "Comment"@,
        e.comment,
    ) + spec_bool_line("Terminal"@, e.terminal) + spec_bool_line("NoDisplay"@, e.no_display)
        + spec_bool_line("Hidden"@, e.hidden) + spec_bool_line(
        "DBusActivatable"@,
        e.dbus_activatable,
    ) + spec_bool_line("StartupNotify"@, e.startup_notify) + spec_bool_line(
        "PrefersNonDefaultGPU"@,
        e.prefers_non_default_gpu,
    ) + spec_bool_line("NoDisplay"@, e.no_display) + spec_list_line("OnlyShowIn"@, e.only_show_in)
        + spec_list_line("Actions"@, e.actions) + spec_list_line("NotShowIn"@, e.not_show_in)
        + spec_list_line("MimeType"@, e.mime_type) + spec_list_line("Categories"@, e.categories)
        + spec_list_line("Implements"@, e.implements) + spec_opt_locale_list_lines(
        "Keywords"@,
        e.keywords,
    )
}

/// The texts of the groups, separated by line breaks.
pub open spec fn spec_render_groups(gs: Seq<EntryView>) -> Seq<char>
    decreases gs.len(),
{
    if gs.len() == 0 {
        Seq::empty()
    } else if gs.len() == 1 {
        spec_render_entry(gs[0])
    } else {
        spec_render_groups(gs.drop_last()) + "\n"@ + spec_render_entry(gs.last())
    }
}

fn push_line(out: &mut String, key: &str, v: &Option<String>)
    ensures
        final(out)@ == old(out)@ + spec_line(key@, opt_view(*v)),
{
    match v {
        Some(s) => {
            out.append("\n");
            out.append(key);
            out.append("=");
            out.append(s.as_str());
        },
        None => {
            assert(old(out)@ + Seq::<char>::empty() =~= old(out)@);
        },
    }
}

fn push_bool_line(out: &mut String, key: &str, b: Option<bool>)
    ensures
        final(out)@ == old(out)@ + spec_bool_line(key@, b),
{
    match b {
        Some(x) => {
            out.append("\n");
            out.append(key);
            out.append("=");
            if x {
                out.append("true");
            } else {
                out.append("false");
            }
        },
        None => {
            assert(old(out)@ + Seq::<char>::empty() =~= old(out)@);
        },
    }
}

/// `vs` joined with `;`.
fn join_semis(vs: &Vec<String>) -> (r: String)
    ensures
        r@ == spec_join_semis(views(vs@)),
{
    let mut r = String::new();
    let mut i: usize = 0;
    while i < vs.len()
        invariant
            i <= vs@.len(),
            r@ == spec_join_semis(views(vs@).subrange(0, i as int)),
        decreases vs.len() - i,
    {
        proof {
            let pre = views(vs@).subrange(0, i as int);
            let next = views(vs@).subrange(0, i + 1);
            assert(next.drop_last() =~= pre);
            assert(next.last() == vs@[i as int]@);
            if i == 0 {
                assert(r@ =~= Seq::<char>::empty());
            }
        }
        if i > 0 {
            r.append(";");
        } else {
            proof {
                assert(Seq::<char>::empty() + vs@[0]@ =~= vs@[0]@);
            }
        }
        r.append(vs[i].as_str());
        i = i + 1;
    }
    proof {
        assert(views(vs@).subrange(0, vs@.len() as int) =~= views(vs@));
    }
    r
}

fn push_list_line(out: &mut String, key: &str, v: &Option<Vec<String>>)
    ensures
        final(out)@ == old(out)@ + spec_list_line(key@, opt_list_view(*v)),
{
    match v {
        Some(vs) => {
            let joined = join_semis(vs);
            out.append("\n");
            out.append(key);
            out.append("=");
            out.append(joined.as_str());
            out.append(";");
        },
        None => {
            assert(old(out)@ + Seq::<char>::empty() =~= old(out)@);
        },
    }
}

fn push_locale_lines(out: &mut String, key: &str, v: &Option<LocaleString>)
    ensures
        final(out)@ == old(out)@ + spec_opt_locale_lines(key@, opt_locale_view(*v)),
{
    match v {
        Some(ls) => {
            let ghost start = out@;
            let mut i: usize = 0;
            proof {
                assert(ls@.subrange(0, 0) =~= Seq::<(Option<Seq<char>>, Seq<char>)>::empty());
                assert(start + Seq::<char>::empty() =~= start);
            }
            while i < ls.locs.len()
                invariant
                    i <= ls@.len(),
                    out@ == start + spec_locale_lines(key@, ls@.subrange(0, i as int)),
                decreases ls.locs.len() - i,
            {
                let ghost before = out@;
                let loc = &ls.locs[i];
                proof {
                    let next = ls@.subrange(0, i + 1);
                    assert(next.drop_last() =~= ls@.subrange(0, i as int));
                    assert(next.last() == (lang_view(loc.lang), loc.value@));
                }
                match &loc.lang {
                    crate::locale::LocaleLang::Lang(l) => {
                        out.append("\n");
                        out.append(key);
                        out.append("[");
                        out.append(l.as_str());
                        out.append("]=");
                        out.append(loc.value.as_str());
                        proof {
                            assert(out@ =~= before + ("\n"@ + key@ + "["@ + l@ + "]="@ + loc.value@));
                        }
                    },
                    crate::locale::LocaleLang::Default => {
                        out.append("\n");
                        out.append(key);
                        out.append("=");
                        out.append(loc.value.as_str());
                        proof {
                            assert(out@ =~= before + ("\n"@ + key@ + "="@ + loc.value@));
                        }
                    },
                }
                i = i + 1;
            }
            proof {
                assert(ls@.subrange(0, ls@.len() as int) =~= ls@);
            }
        },
        None => {
            assert(old(out)@ + Seq::<char>::empty() =~= old(out)@);
        },
    }
}

fn push_locale_list_lines(out: &mut String, key: &str, v: &Option<LocaleStrings>)
    ensures
        final(out)@ == old(out)@ + spec_opt_locale_list_lines(key@, opt_locales_view(*v)),
{
    match v {
        Some(ls) => {
            let ghost start = out@;
            let mut i: usize = 0;
            proof {
                assert(ls@.subrange(0, 0) =~= Seq::<(Option<Seq<char>>, Seq<Seq<char>>)>::empty());
                assert(start + Seq::<char>::empty() =~= start);
            }
            while i < ls.locs.len()
                invariant
                    i <= ls@.len(),
                    out@ == start + spec_locale_list_lines(key@, ls@.subrange(0, i as int)),
                decreases ls.locs.len() - i,
            {
                let ghost before = out@;
                let loc = &ls.locs[i];
                proof {
                    let next = ls@.subrange(0, i + 1);
                    assert(next.drop_last() =~= ls@.subrange(0, i as int));
                    assert(next.last() == (lang_view(loc.lang), views(loc.values@)));
                }
                let joined = join_semis(&loc.values);
                match &loc.lang {
                    crate::locale::LocaleLang::Lang(l) => {
                        out.append("\n");
                        out.append(key);
                        out.append("[");
                        out.append(l.as_str());
                        out.append("]=");
                        out.append(joined.as_str());
                        out.append(";");
                        proof {
                            assert(out@ =~= before + ("\n"@ + key@ + "["@ + l@ + "]="@ + joined@
                                + ";"@));
                        }
                    },
                    crate::locale::LocaleLang::Default => {
                        out.append("\n");
                        out.append(key);
                        out.append("=");
                        out.append(joined.as_str());
                        proof {
                            assert(out@ =~= before + ("\n"@ + key@ + "="@ + joined@));
                        }
                    },
                }
                i = i + 1;
            }
            proof {
                assert(ls@.subrange(0, ls@.len() as int) =~= ls@);
            }
        },
        None => {
            assert(old(out)@ + Seq::<char>::empty() =~= old(out)@);
        },
    }
}

impl DesktopEntry {
    /// The text of the group: its header, then one `Key=value` line per set
    /// key, in a fixed order.
    pub fn to_ini_string(&self) -> (r: String)
        ensures
            r@ == spec_render_entry(self@),
    {
        let mut out = concat3("[", self.entry_type.as_str(), "]");
        push_line(&mut out, "Type", &self.type_string);
        push_line(&mut out, "Version", &self.version);
        push_line(&mut out, "Exec", &self.exec_command);
        push_line(&mut out, "Path", &self.path);
        push_line(&mut out, "StartupWMClass", &self.startup_wm_class);
        push_line(&mut out, "Url", &self.url);
        push_line(&mut out, "Path", &self.path);
        push_line(&mut out, "TryExec", &self.try_exec);
        push_line(&mut out, "Icon", &self.icon);
        push_locale_lines(&mut out, "Name", &self.name);
        push_locale_lines(&mut out, "GenericName", &self.generic_name);
        push_locale_lines(&mut out, "Comment", &self.comment);
        push_bool_line(&mut out, "Terminal", self.terminal);
        push_bool_line(&mut out, "NoDisplay", self.no_display);
        push_bool_line(&mut out, "Hidden", self.hidden);
        push_bool_line(&mut out, "DBusActivatable", self.dbus_activatable);
        push_bool_line(&mut out, "StartupNotify", self.startup_notify);
        push_bool_line(&mut out, "PrefersNonDefaultGPU", self.prefers_non_default_gpu);
        push_bool_line(&mut out, "NoDisplay", self.no_display);
        push_list_line(&mut out, "OnlyShowIn", &self.only_show_in);
        push_list_line(&mut out, "Actions", &self.actions);
        push_list_line(&mut out, "NotShowIn", &self.not_show_in);
        push_list_line(&mut out, "MimeType", &self.mime_type);
        push_list_line(&mut out, "Categories", &self.categories);
        push_list_line(&mut out, "Implements", &self.implements);
        push_locale_list_lines(&mut out, "Keywords", &self.keywords);
        out
    }
}

impl DesktopFile {
    /// The text of the file: the texts of its groups, separated by line
    /// breaks.
    pub fn to_ini_string(&self) -> (r: String)
        ensures
            r@ == spec_render_groups(self@.groups),
    {
        let mut out = String::new();
        let mut i: usize = 0;
        while i < self.groups.len()
            invariant
                i <= self.groups@.len(),
                out@ == spec_render_groups(self@.groups.subrange(0, i as int)),
            decreases self.groups.len() - i,
        {
            proof {
                let next = self@.groups.subrange(0, i + 1);
                assert(next.drop_last() =~= self@.groups.subrange(0, i as int));
                assert(next.last() == self.groups@[i as int]@);
                if i == 0 {
                    assert(out@ =~= Seq::<char>::empty());
                }
            }
            let text = self.groups[i].to_ini_string();
            if i > 0 {
                out.append("\n");
            } else {
                proof {
                    assert(Seq::<char>::empty() + text@ =~= text@);
                }
            }
            out.append(text.as_str());
            i = i + 1;
        }
        proof {
            assert(self@.groups.subrange(0, self@.groups.len() as int) =~= self@.groups);
        }
        out
    }
}

} // verus!
