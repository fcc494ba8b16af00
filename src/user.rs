//! Well-known user directories (desktop, documents, music, ...) as listed in
//! the `user-dirs.dirs` file of the configuration home.

use vstd::prelude::*;

use crate::base_directories::{
    env_lookup, opt_view, pair_views, spec_env_lookup, spec_opt_join, BaseDirectories,
};
use crate::paths::{is_absolute, join_path, spec_is_absolute, spec_join};

verus! {

/// The name of what `dotenv_parser::parse_dotenv` returns for a text: its
/// variables with their values, in the order of their names, or nothing
/// when the text is malformed.
pub uninterp spec fn dotenv_entries(text: Seq<char>) -> Option<Seq<(Seq<char>, Seq<char>)>>;

/// Relies on `dotenv_parser::parse_dotenv`: parses the assignments of a
/// shell-style environment file.
#[verifier::external_body]
fn parse_dotenv(text: &str) -> (r: Option<Vec<(String, String)>>)
    ensures
        match r {
            Some(v) => dotenv_entries(text@) == Some(pair_views(v@)),
            None => dotenv_entries(text@) is None,
        },
{
    match dotenv_parser::parse_dotenv(text) {
        Ok(map) => Some(map.into_iter().collect()),
        Err(_) => None,
    }
}

/// The file, in the configuration home, that lists the user directories.
pub const USER_DIRS_FILE: &'static str = "user-dirs.dirs";

/// A failure to determine the user directories.
#[derive(Debug, Clone, PartialEq, Eq)]
pub enum UserDirsError {
    /// No home directory is known.
    HomeMissing,
    /// The `user-dirs.dirs` file does not exist.
    Missing,
    /// The `user-dirs.dirs` file could not be opened or read.
    Unreadable(String),
    /// The `user-dirs.dirs` file is not a valid list of assignments.
    Malformed,
}

/// The text after a leading `$HOME` component of `p`: `$HOME` alone, or
/// followed by a separator (all leading separators of the rest dropped).
pub open spec fn spec_after_home(p: Seq<char>) -> Option<Seq<char>> {
    if p.len() >= 5 && p.subrange(0, 5) == "$HOME"@ && (p.len() == 5 || p[5] == '/') {
        Some(spec_trim_separators(p.subrange(5, p.len() as int)))
    } else {
        None
    }
}

/// `p` without its leading separators.
pub open spec fn spec_trim_separators(p: Seq<char>) -> Seq<char>
    decreases p.len(),
{
    if p.len() > 0 && p[0] == '/' {
        spec_trim_separators(p.drop_first())
    } else {
        p
    }
}

/// The path that the value `v` of a user directory variable names: a
/// leading `$HOME` is replaced by `home`; only an absolute result counts.
pub open spec fn spec_user_path(v: Seq<char>, home: Seq<char>) -> Option<Seq<char>> {
    let p = match spec_after_home(v) {
        Some(rest) => spec_join(home, rest),
        None => v,
    };
    if spec_is_absolute(p) {
        Some(p)
    } else {
        None
    }
}

/// [`spec_user_path`] of the variable `name`, when it is set.
pub open spec fn spec_get_userpath(
    env: Seq<(Seq<char>, Seq<char>)>,
    name: Seq<char>,
    home: Seq<char>,
) -> Option<Seq<char>> {
    match spec_env_lookup(env, name) {
        Some(v) => spec_user_path(v, home),
        None => None,
    }
}

fn trim_separators(p: &str) -> (r: String)
    ensures
        r@ == spec_trim_separators(p@),
{
    let n = p.unicode_len();
    let mut i: usize = 0;
    proof {
        assert(p@.subrange(0, n as int) =~= p@);
    }
    while i < n && p.get_char(i) == '/'
        invariant
            n == p@.len(),
            i <= n,
            spec_trim_separators(p@) == spec_trim_separators(p@.subrange(i as int, n as int)),
        decreases n - i,
    {
        proof {
            let rest = p@.subrange(i as int, n as int);
            assert(rest.drop_first() =~= p@.subrange(i + 1, n as int));
        }
        i = i + 1;
    }
    String::from_str(p.substring_char(i, n))
}

fn after_home(p: &str) -> (r: Option<String>)
    ensures
        opt_view(r) == spec_after_home(p@),
{
    let n = p.unicode_len();
    proof {
        reveal_strlit("$HOME");
    }
    if n >= 5 && p.get_char(0) == '$' && p.get_char(1) == 'H' && p.get_char(2) == 'O' && p.get_char(
        3,
    ) == 'M' && p.get_char(4) == 'E' && (n == 5 || p.get_char(5) == '/') {
        assert(p@.subrange(0, 5) =~= "$HOME"@);
        Some(trim_separators(p.substring_char(5, n)))
    } else {
        proof {
            if p@.len() >= 5 && p@.subrange(0, 5) == "$HOME"@ {
                assert(p@[0] == p@.subrange(0, 5)[0]);
                assert(p@[1] == p@.subrange(0, 5)[1]);
                assert(p@[2] == p@.subrange(0, 5)[2]);
                assert(p@[3] == p@.subrange(0, 5)[3]);
                assert(p@[4] == p@.subrange(0, 5)[4]);
            }
        }
        None
    }
}

/// The directory that the variable `name` of `env` names,
/// with a leading `$HOME` replaced by `home`; nothing unless it is absolute.
pub fn get_userpath(env: &Vec<(String, String)>, name: &str, home: &str) -> (r: Option<String>)
    ensures
        opt_view(r) == spec_get_userpath(pair_views(env@), name@, home@),
{
    match env_lookup(env, name) {
        Some(v) => {
            let p = match after_home(v.as_str()) {
                Some(rest) => join_path(home, rest.as_str()),
                None => v.clone(),
            };
            if is_absolute(p.as_str()) {
                Some(p)
            } else {
                None
            }
        },
        None => None,
    }
}

/// The well-known user directories; each is absent when the list does not
/// name it or names a relative path.
#[derive(Debug, Clone)]
pub struct UserDirectories {
    desktop: Option<String>,
    download: Option<String>,
    templates: Option<String>,
    public_share: Option<String>,
    documents: Option<String>,
    music: Option<String>,
    pictures: Option<String>,
    videos: Option<String>,
}

/// The mathematical content of a [`UserDirectories`].
pub struct UserDirsView {
    pub desktop: Option<Seq<char>>,
    pub download: Option<Seq<char>>,
    pub templates: Option<Seq<char>>,
    pub public_share: Option<Seq<char>>,
    pub documents: Option<Seq<char>>,
    pub music: Option<Seq<char>>,
    pub pictures: Option<Seq<char>>,
    pub videos: Option<Seq<char>>,
}

impl View for UserDirectories {
    type V = UserDirsView;

    closed spec fn view(&self) -> UserDirsView {
        UserDirsView {
            desktop: opt_view(self.desktop),
            download: opt_view(self.download),
            templates: opt_view(self.templates),
            public_share: opt_view(self.public_share),
            documents: opt_view(self.documents),
            music: opt_view(self.music),
            pictures: opt_view(self.pictures),
            videos: opt_view(self.videos),
        }
    }
}

/// The user directories named by the assignments `env`, relative to `home`.
pub open spec fn spec_user_dirs(env: Seq<(Seq<char>, Seq<char>)>, home: Seq<char>) -> UserDirsView {
    UserDirsView {
        desktop: spec_get_userpath(env, "XDG_DESKTOP_DIR"@, home),
        download: spec_get_userpath(env, "XDG_DOWNLOAD_DIR"@, home),
        templates: spec_get_userpath(env, "XDG_TEMPLATES_DIR"@, home),
        public_share: spec_get_userpath(env, "XDG_PUBLICSHARE_DIR"@, home),
        documents: spec_get_userpath(env, "XDG_DOCUMENTS_DIR"@, home),
        music: spec_get_userpath(env, "XDG_MUSIC_DIR"@, home),
        pictures: spec_get_userpath(env, "XDG_PICTURES_DIR"@, home),
        videos: spec_get_userpath(env, "XDG_VIDEOS_DIR"@, home),
    }
}

pub open spec fn opt_ref_view(o: Option<&String>) -> Option<Seq<char>> {
    match o {
        Some(s) => Some(s@),
        None => None,
    }
}

impl UserDirectories {
    /// The user directories named by the assignments `env`, relative to `home`.
    pub fn from_entries(env: &Vec<(String, String)>, home: &str) -> (r: UserDirectories)
        ensures
            r@ == spec_user_dirs(pair_views(env@), home@),
    {
        UserDirectories {
            desktop: get_userpath(env, "XDG_DESKTOP_DIR", home),
            download: get_userpath(env, "XDG_DOWNLOAD_DIR", home),
            templates: get_userpath(env, "XDG_TEMPLATES_DIR", home),
            public_share: get_userpath(env, "XDG_PUBLICSHARE_DIR", home),
            documents: get_userpath(env, "XDG_DOCUMENTS_DIR", home),
            music: get_userpath(env, "XDG_MUSIC_DIR", home),
            pictures: get_userpath(env, "XDG_PICTURES_DIR", home),
            videos: get_userpath(env, "XDG_VIDEOS_DIR", home),
        }
    }

    /// The user directories listed in the text `contents` of a
    /// `user-dirs.dirs` file, relative to `home`; `Malformed` when the text
    /// does not parse.
    pub fn from_contents(contents: &str, home: &str) -> (r: Result<UserDirectories, UserDirsError>)
        ensures
            match dotenv_entries(contents@) {
                Some(env) => r matches Ok(u) && u@ == spec_user_dirs(env, home@),
                None => r == Err::<UserDirectories, UserDirsError>(UserDirsError::Malformed),
            },
    {
        match parse_dotenv(contents) {
            Some(env) => Ok(UserDirectories::from_entries(&env, home)),
            None => Err(UserDirsError::Malformed),
        }
    }

    /// Where the list of user directories is kept: `user-dirs.dirs` in the
    /// configuration home; `HomeMissing` without one.
    pub fn user_dirs_path(basedir: &BaseDirectories) -> (r: Result<String, UserDirsError>)
        ensures
            match spec_opt_join(basedir@.config_home, basedir@.user_prefix) {
                Some(c) => r matches Ok(p) && p@ == spec_join(c, USER_DIRS_FILE@),
                None => r == Err::<String, UserDirsError>(UserDirsError::HomeMissing),
            },
    {
        match basedir.get_config_home() {
            Some(c) => Ok(join_path(c.as_str(), USER_DIRS_FILE)),
            None => Err(UserDirsError::HomeMissing),
        }
    }

    pub fn get_desktop(&self) -> (r: Option<&String>)
        ensures
            opt_ref_view(r) == self@.desktop,
    {
        self.desktop.as_ref()
    }

    pub fn get_download(&self) -> (r: Option<&String>)
        ensures
            opt_ref_view(r) == self@.download,
    {
        self.download.as_ref()
    }

    pub fn get_templates(&self) -> (r: Option<&String>)
        ensures
            opt_ref_view(r) == self@.templates,
    {
        self.templates.as_ref()
    }

    pub fn get_public_share(&self) -> (r: Option<&String>)
        ensures
            opt_ref_view(r) == self@.public_share,
    {
        self.public_share.as_ref()
    }

    pub fn get_documents(&self) -> (r: Option<&String>)
        ensures
            opt_ref_view(r) == self@.documents,
    {
        self.documents.as_ref()
    }

    pub fn get_music(&self) -> (r: Option<&String>)
        ensures
            opt_ref_view(r) == self@.music,
    {
        self.music.as_ref()
    }

    pub fn get_pictures(&self) -> (r: Option<&String>)
        ensures
            opt_ref_view(r) == self@.pictures,
    {
        self.pictures.as_ref()
    }

    pub fn get_videos(&self) -> (r: Option<&String>)
        ensures
            opt_ref_view(r) == self@.videos,
    {
        self.videos.as_ref()
    }
}

} // verus!
