//! The settings of the application: their defaults, how a damaged settings
//! file is mended, and the preview of a naming template.

use vstd::prelude::*;
use vstd::string::StringExecFns;
use crate::paths::{join_paths, joined};
use crate::text::{
    chars_of, decimal, decimal_chars, decimal_padded, decimal_padded_chars, replace_all,
    replaced, string_of, text_of,
};

verus! {

/// The settings.
#[derive(Debug)]
pub struct AppConfig {
    pub output_directory: String,
    pub naming_template: String,
    pub subtitle_template: Option<String>,
    pub folder_template: String,
    pub season_folder_template: String,
    pub organize_by_season: bool,
    pub create_anime_folders: bool,
    pub use_romaji_names: bool,
    pub create_season_folders: bool,
    pub anilist_enabled: bool,
    pub tmdb_enabled: bool,
    pub concurrent_limit: usize,
    pub log_level: String,
}

/// `AppConfig` with every text as text.
pub struct Config {
    pub output_directory: Seq<char>,
    pub naming_template: Seq<char>,
    pub subtitle_template: Option<Seq<char>>,
    pub folder_template: Seq<char>,
    pub season_folder_template: Seq<char>,
    pub organize_by_season: bool,
    pub create_anime_folders: bool,
    pub use_romaji_names: bool,
    pub create_season_folders: bool,
    pub anilist_enabled: bool,
    pub tmdb_enabled: bool,
    pub concurrent_limit: usize,
    pub log_level: Seq<char>,
}

impl View for AppConfig {
    type V = Config;

    open spec fn view(&self) -> Config {
        Config {
            output_directory: self.output_directory@,
            naming_template: self.naming_template@,
            subtitle_template: text_of(self.subtitle_template),
            folder_template: self.folder_template@,
            season_folder_template: self.season_folder_template@,
            organize_by_season: self.organize_by_season,
            create_anime_folders: self.create_anime_folders,
            use_romaji_names: self.use_romaji_names,
            create_season_folders: self.create_season_folders,
            anilist_enabled: self.anilist_enabled,
            tmdb_enabled: self.tmdb_enabled,
            concurrent_limit: self.concurrent_limit,
            log_level: self.log_level@,
        }
    }
}

/// The settings that a fresh installation starts with, for a given output
/// directory.
pub open spec fn default_config(output_directory: Seq<char>) -> Config {
    Config {
        output_directory,
        naming_template: "{title_romaji} - S{season}E{episode:02}"@,
        subtitle_template: Some("{title_romaji} - S{season}E{episode:02}.chs"@),
        folder_template: "{title_romaji} ({year})"@,
        season_folder_template: "Season {season}"@,
        organize_by_season: true,
        create_anime_folders: true,
        use_romaji_names: true,
        create_season_folders: true,
        anilist_enabled: true,
        tmdb_enabled: false,
        concurrent_limit: 4,
        log_level: "info"@,
    }
}

/// The library's folder below a base directory.
pub open spec fn library_below(base: Seq<char>) -> Seq<char> {
    joined(base, "AnimeLibrary"@)
}

/// The directory that the library lies below by default: the video
/// directory, or the home directory where there is no video directory, or
/// nothing where there is neither.
pub open spec fn base_of(video: Option<Seq<char>>, home: Option<Seq<char>>) -> Seq<char> {
    match video {
        Some(v) => v,
        None => match home {
            Some(h) => h,
            None => Seq::<char>::empty(),
        },
    }
}

/// The user's video directory as `dirs::video_dir` gives it, as text.
/// Nothing is claimed of it: it depends on the user and the platform.
#[verifier::external_body]
fn video_directory() -> (dir: Option<String>) {
    dirs::video_dir().map(|p| p.to_string_lossy().to_string())
}

/// The user's home directory as `dirs::home_dir` gives it, as text.
#[verifier::external_body]
fn home_directory() -> (dir: Option<String>) {
    dirs::home_dir().map(|p| p.to_string_lossy().to_string())
}

/// The user's download directory as `dirs::download_dir` gives it, as text.
#[verifier::external_body]
fn download_directory() -> (dir: Option<String>) {
    dirs::download_dir().map(|p| p.to_string_lossy().to_string())
}

/// The user's desktop directory as `dirs::desktop_dir` gives it, as text.
#[verifier::external_body]
fn desktop_directory() -> (dir: Option<String>) {
    dirs::desktop_dir().map(|p| p.to_string_lossy().to_string())
}

/// The user's configuration directory as `dirs::config_dir` gives it, as
/// text.
#[verifier::external_body]
fn config_directory() -> (dir: Option<String>) {
    dirs::config_dir().map(|p| p.to_string_lossy().to_string())
}

impl AppConfig {
    /// The default settings with the given output directory.
    pub fn with_output_directory(output_directory: String) -> (config: AppConfig)
        ensures
            config@ == default_config(output_directory@),
    {
        AppConfig {
            output_directory,
            naming_template: String::from_str("{title_romaji} - S{season}E{episode:02}"),
            subtitle_template: Some(String::from_str("{title_romaji} - S{season}E{episode:02}.chs")),
            folder_template: String::from_str("{title_romaji} ({year})"),
            season_folder_template: String::from_str("Season {season}"),
            organize_by_season: true,
            create_anime_folders: true,
            use_romaji_names: true,
            create_season_folders: true,
            anilist_enabled: true,
            tmdb_enabled: false,
            concurrent_limit: 4,
            log_level: String::from_str("info"),
        }
    }

    /// The default settings for a user whose video and home directories
    /// are as given: the library lies below the video directory, or below
    /// the home directory where there is no video directory, or is the
    /// bare folder name where there is neither.
    pub fn default_for(video: Option<String>, home: Option<String>) -> (config: AppConfig)
        ensures
            config@ == default_config(library_below(base_of(text_of(video), text_of(home)))),
    {
        let base = match video {
            Some(v) => chars_of(v.as_str()),
            None => match home {
                Some(h) => chars_of(h.as_str()),
                None => Vec::new(),
            },
        };
        let library = join_paths(&base, &chars_of("AnimeLibrary"));
        AppConfig::with_output_directory(string_of(&library))
    }

    /// A copy of the settings.
    pub fn duplicate(&self) -> (copy: AppConfig)
        ensures
            copy@ == self@,
    {
        AppConfig {
            output_directory: self.output_directory.clone(),
            naming_template: self.naming_template.clone(),
            subtitle_template: match &self.subtitle_template {
                Some(t) => Some(t.clone()),
                None => None,
            },
            folder_template: self.folder_template.clone(),
            season_folder_template: self.season_folder_template.clone(),
            organize_by_season: self.organize_by_season,
            create_anime_folders: self.create_anime_folders,
            use_romaji_names: self.use_romaji_names,
            create_season_folders: self.create_season_folders,
            anilist_enabled: self.anilist_enabled,
            tmdb_enabled: self.tmdb_enabled,
            concurrent_limit: self.concurrent_limit,
            log_level: self.log_level.clone(),
        }
    }
}

impl Default for AppConfig {
    /// The default settings for the user who runs the program: all
    /// defaults, with the library below some directory of that user.
    fn default() -> (config: AppConfig)
        ensures
            exists|base: Seq<char>| config@ == default_config(library_below(base)),
    {
        let video = video_directory();
        let home = home_directory();
        let ghost base = base_of(text_of(video), text_of(home));
        let config = AppConfig::default_for(video, home);
        proof {
            assert(config@ == default_config(library_below(base)));
        }
        config
    }
}

/// What a damaged settings file still says: for each setting that can be
/// mended, its value where the file holds one of the right type.
#[derive(Debug)]
pub struct ConfigPatch {
    pub output_directory: Option<String>,
    pub naming_template: Option<String>,
    pub subtitle_template: Option<String>,
    pub folder_template: Option<String>,
    pub organize_by_season: Option<bool>,
    pub create_anime_folders: Option<bool>,
    pub use_romaji_names: Option<bool>,
    pub create_season_folders: Option<bool>,
    pub anilist_enabled: Option<bool>,
    pub tmdb_enabled: Option<bool>,
    pub concurrent_limit: Option<u64>,
    pub log_level: Option<String>,
}

/// `ConfigPatch` with every text as text.
pub struct Patch {
    pub output_directory: Option<Seq<char>>,
    pub naming_template: Option<Seq<char>>,
    pub subtitle_template: Option<Seq<char>>,
    pub folder_template: Option<Seq<char>>,
    pub organize_by_season: Option<bool>,
    pub create_anime_folders: Option<bool>,
    pub use_romaji_names: Option<bool>,
    pub create_season_folders: Option<bool>,
    pub anilist_enabled: Option<bool>,
    pub tmdb_enabled: Option<bool>,
    pub concurrent_limit: Option<u64>,
    pub log_level: Option<Seq<char>>,
}

impl View for ConfigPatch {
    type V = Patch;

    open spec fn view(&self) -> Patch {
        Patch {
            output_directory: text_of(self.output_directory),
            naming_template: text_of(self.naming_template),
            subtitle_template: text_of(self.subtitle_template),
            folder_template: text_of(self.folder_template),
            organize_by_season: self.organize_by_season,
            create_anime_folders: self.create_anime_folders,
            use_romaji_names: self.use_romaji_names,
            create_season_folders: self.create_season_folders,
            anilist_enabled: self.anilist_enabled,
            tmdb_enabled: self.tmdb_enabled,
            concurrent_limit: self.concurrent_limit,
            log_level: text_of(self.log_level),
        }
    }
}

/// `new` where there is one, else `old`.
pub open spec fn or_old<T>(new: Option<T>, old: T) -> T {
    match new {
        Some(value) => value,
        None => old,
    }
}

/// Settings mended with what a damaged file still says: every setting that
/// the patch holds replaces the one in `base`. The template for season
/// folders is not among the settings that are mended. A limit that does not
/// fit the machine's word is cut to its low bits.
pub open spec fn patched(base: Config, patch: Patch) -> Config {
    Config {
        output_directory: or_old(patch.output_directory, base.output_directory),
        naming_template: or_old(patch.naming_template, base.naming_template),
        subtitle_template: match patch.subtitle_template {
            Some(t) => Some(t),
            None => base.subtitle_template,
        },
        folder_template: or_old(patch.folder_template, base.folder_template),
        season_folder_template: base.season_folder_template,
        organize_by_season: or_old(patch.organize_by_season, base.organize_by_season),
        create_anime_folders: or_old(patch.create_anime_folders, base.create_anime_folders),
        use_romaji_names: or_old(patch.use_romaji_names, base.use_romaji_names),
        create_season_folders: or_old(patch.create_season_folders, base.create_season_folders),
        anilist_enabled: or_old(patch.anilist_enabled, base.anilist_enabled),
        tmdb_enabled: or_old(patch.tmdb_enabled, base.tmdb_enabled),
        concurrent_limit: match patch.concurrent_limit {
            Some(limit) => (limit as usize),
            None => base.concurrent_limit,
        },
        log_level: or_old(patch.log_level, base.log_level),
    }
}

fn text_or(new: &Option<String>, old: String) -> (out: String)
    ensures
        out@ == or_old(text_of(*new), old@),
{
    match new {
        Some(value) => value.clone(),
        None => old,
    }
}

fn flag_or(new: Option<bool>, old: bool) -> (out: bool)
    ensures
        out == or_old(new, old),
{
    match new {
        Some(value) => value,
        None => old,
    }
}

/// Mends settings with what a damaged file still says: see `patched`.
pub fn apply_patch(base: AppConfig, patch: &ConfigPatch) -> (config: AppConfig)
    ensures
        config@ == patched(base@, patch@),
{
    AppConfig {
        output_directory: text_or(&patch.output_directory, base.output_directory),
        naming_template: text_or(&patch.naming_template, base.naming_template),
        subtitle_template: match &patch.subtitle_template {
            Some(t) => Some(t.clone()),
            None => base.subtitle_template,
        },
        folder_template: text_or(&patch.folder_template, base.folder_template),
        season_folder_template: base.season_folder_template,
        organize_by_season: flag_or(patch.organize_by_season, base.organize_by_season),
        create_anime_folders: flag_or(patch.create_anime_folders, base.create_anime_folders),
        use_romaji_names: flag_or(patch.use_romaji_names, base.use_romaji_names),
        create_season_folders: flag_or(patch.create_season_folders, base.create_season_folders),
        anilist_enabled: flag_or(patch.anilist_enabled, base.anilist_enabled),
        tmdb_enabled: flag_or(patch.tmdb_enabled, base.tmdb_enabled),
        concurrent_limit: match patch.concurrent_limit {
            Some(limit) => {
                #[verifier::truncate]
                let cut = limit as usize;
                cut
            },
            None => base.concurrent_limit,
        },
        log_level: text_or(&patch.log_level, base.log_level),
    }
}

/// What was found where the settings file should be.
#[derive(Debug)]
pub enum ConfigFile {
    /// There is no file.
    Missing,
    /// The file could not be read, for the reason given.
    Unreadable(String),
    /// The file holds complete settings.
    Complete(AppConfig),
    /// The file is well-formed but does not hold complete settings; this
    /// is what it still says.
    Partial(ConfigPatch),
    /// The file is not well-formed, as the reason says.
    Malformed(String),
}

/// What loading the settings comes to.
#[derive(Debug)]
pub enum LoadPlan {
    /// Hand these settings out.
    Use(AppConfig),
    /// Write these settings to the file, then hand them out.
    SaveAndUse(AppConfig),
    /// Write these settings to the file, then fail with the message.
    SaveAndFail(AppConfig, String),
    /// Fail with the message.
    Fail(String),
}

/// `LoadPlan` with every text as text.
pub enum Load {
    Use(Config),
    SaveAndUse(Config),
    SaveAndFail(Config, Seq<char>),
    Fail(Seq<char>),
}

impl View for LoadPlan {
    type V = Load;

    open spec fn view(&self) -> Load {
        match *self {
            LoadPlan::Use(c) => Load::Use(c@),
            LoadPlan::SaveAndUse(c) => Load::SaveAndUse(c@),
            LoadPlan::SaveAndFail(c, m) => Load::SaveAndFail(c@, m@),
            LoadPlan::Fail(m) => Load::Fail(m@),
        }
    }
}

/// `ConfigFile` with every text as text.
pub enum FileState {
    Missing,
    Unreadable(Seq<char>),
    Complete(Config),
    Partial(Patch),
    Malformed(Seq<char>),
}

impl View for ConfigFile {
    type V = FileState;

    open spec fn view(&self) -> FileState {
        match *self {
            ConfigFile::Missing => FileState::Missing,
            ConfigFile::Unreadable(d) => FileState::Unreadable(d@),
            ConfigFile::Complete(c) => FileState::Complete(c@),
            ConfigFile::Partial(p) => FileState::Partial(p@),
            ConfigFile::Malformed(d) => FileState::Malformed(d@),
        }
    }
}

/// What loading comes to, given the defaults and what the file holds. A
/// missing file is replaced by the defaults. Complete settings are used as
/// they are. Partial settings mend the defaults, and the result is written
/// back. A file that is not well-formed is replaced by the defaults, and
/// loading fails with a message that says so.
pub open spec fn load_plan(defaults: Config, file: FileState) -> Load {
    match file {
        FileState::Missing => Load::SaveAndUse(defaults),
        FileState::Unreadable(detail) => Load::Fail("读取配置文件失败: "@ + detail),
        FileState::Complete(config) => Load::Use(config),
        FileState::Partial(patch) => Load::SaveAndUse(patched(defaults, patch)),
        FileState::Malformed(detail) => Load::SaveAndFail(
            defaults,
            "配置文件格式错误，已重置为默认配置: "@ + detail,
        ),
    }
}

/// Decides what loading the settings comes to: see `load_plan`.
pub fn load_config(defaults: AppConfig, file: ConfigFile) -> (plan: LoadPlan)
    ensures
        plan@ == load_plan(defaults@, file@),
{
    match file {
        ConfigFile::Missing => LoadPlan::SaveAndUse(defaults),
        ConfigFile::Unreadable(detail) => {
            let mut message = String::from_str("读取配置文件失败: ");
            message.append(detail.as_str());
            LoadPlan::Fail(message)
        },
        ConfigFile::Complete(config) => LoadPlan::Use(config),
        ConfigFile::Partial(patch) => LoadPlan::SaveAndUse(apply_patch(defaults, &patch)),
        ConfigFile::Malformed(detail) => {
            let mut message = String::from_str("配置文件格式错误，已重置为默认配置: ");
            message.append(detail.as_str());
            LoadPlan::SaveAndFail(defaults, message)
        },
    }
}

/// The texts that are there, in order.
pub open spec fn present(found: Seq<Option<String>>) -> Seq<Seq<char>>
    decreases found.len(),
{
    if found.len() == 0 {
        Seq::empty()
    } else {
        match found.last() {
            Some(text) => present(found.drop_last()).push(text@),
            None => present(found.drop_last()),
        }
    }
}

/// The directories that were found, in the order in which they were looked
/// for.
pub fn directories_found(found: &Vec<Option<String>>) -> (dirs: Vec<String>)
    ensures
        dirs@.map_values(|d: String| d@) == present(found@),
{
    let mut dirs: Vec<String> = Vec::new();
    let mut i: usize = 0;
    let ghost view = |d: String| d@;
    proof {
        assert(dirs@.map_values(view) == present(found@.take(0)));
    }
    while i < found.len()
        invariant
            i <= found.len(),
            view == |d: String| d@,
            dirs@.map_values(view) == present(found@.take(i as int)),
        decreases found.len() - i,
    {
        proof {
            assert(found@.take(i + 1).drop_last() == found@.take(i as int));
        }
        let ghost before = dirs@.map_values(view);
        match &found[i] {
            Some(dir) => {
                dirs.push(dir.clone());
                proof {
                    assert(dirs@.map_values(view) == before.push(dir@));
                }
            },
            None => {},
        }
        i = i + 1;
    }
    proof {
        assert(found@.take(found.len() as int) == found@);
    }
    dirs
}

/// The directories that are offered to the user as places for the library:
/// of the user's video, download, desktop and home directories, in this
/// order, those that the platform knows.
pub fn get_default_directories() -> (dirs: Vec<String>)
    ensures
        dirs.len() <= 4,
        exists|found: Seq<Option<String>>|
            found.len() == 4 && dirs@.map_values(|d: String| d@) == present(found),
{
    let mut found: Vec<Option<String>> = Vec::new();
    found.push(video_directory());
    found.push(download_directory());
    found.push(desktop_directory());
    found.push(home_directory());
    let dirs = directories_found(&found);
    proof {
        lemma_present_len(found@);
        assert(dirs@.map_values(|d: String| d@).len() == dirs.len());
        assert(found@.len() == 4 && dirs@.map_values(|d: String| d@) == present(found@));
    }
    dirs
}

/// No more texts are there than were looked for.
proof fn lemma_present_len(found: Seq<Option<String>>)
    ensures
        present(found).len() <= found.len(),
    decreases found.len(),
{
    if found.len() > 0 {
        lemma_present_len(found.drop_last());
    }
}

/// Where the settings file lies for a user with the given configuration
/// directory: in the application's folder below it. Without such a
/// directory there is no place for the file.
pub open spec fn config_path_below(config_dir: Option<Seq<char>>) -> Result<Seq<char>, Seq<char>> {
    match config_dir {
        Some(dir) => Ok(joined(joined(dir, "anime-file-manager"@), "config.json"@)),
        None => Err("无法获取配置目录"@),
    }
}

/// Where the settings file lies for a user with the given configuration
/// directory: see `config_path_below`.
pub fn config_path_in(config_dir: &Option<String>) -> (r: Result<String, String>)
    ensures
        match r {
            Ok(path) => config_path_below(text_of(*config_dir)) == Ok::<Seq<char>, Seq<char>>(
                path@,
            ),
            Err(message) => config_path_below(text_of(*config_dir)) == Err::<
                Seq<char>,
                Seq<char>,
            >(message@),
        },
{
    match config_dir {
        Some(dir) => {
            let folder = join_paths(&chars_of(dir.as_str()), &chars_of("anime-file-manager"));
            Ok(string_of(&join_paths(&folder, &chars_of("config.json"))))
        },
        None => Err(String::from_str("无法获取配置目录")),
    }
}

/// Where the settings file lies for the user who runs the program. It
/// fails only where the platform knows no configuration directory.
pub fn get_config_path() -> (r: Result<String, String>)
    ensures
        r matches Err(message) ==> message@ == "无法获取配置目录"@,
        r matches Ok(path) ==> exists|dir: Seq<char>|
            path@ == joined(joined(dir, "anime-file-manager"@), "config.json"@),
{
    let dir = config_directory();
    let r = config_path_in(&dir);
    proof {
        match dir {
            Some(d) => {
                assert(r matches Ok(path) && path@ == joined(
                    joined(d@, "anime-file-manager"@),
                    "config.json"@,
                ));
            },
            None => {},
        }
    }
    r
}

/// What a naming template gives for an example episode. In this order,
/// `{title}` and `{title_romaji}` become the title, `{episode}` and
/// `{episode:02}` the episode in two digits, `{episode:03}` the episode in
/// three digits, `{group}` the release group, `{year}` the year, each of
/// the last two `Unknown` where it is not given, and `{ext}` becomes `mkv`.
pub open spec fn naming_preview(
    template: Seq<char>,
    anime_title: Seq<char>,
    episode: u32,
    group: Option<Seq<char>>,
    year: Option<u32>,
) -> Seq<char> {
    let a = replaced(template, "{title}"@, anime_title);
    let b = replaced(a, "{title_romaji}"@, anime_title);
    let c = replaced(b, "{episode}"@, decimal_padded(episode as nat, 2));
    let d = replaced(c, "{episode:02}"@, decimal_padded(episode as nat, 2));
    let e = replaced(d, "{episode:03}"@, decimal_padded(episode as nat, 3));
    let f = replaced(
        e,
        "{group}"@,
        match group {
            Some(g) => g,
            None => "Unknown"@,
        },
    );
    let g = replaced(
        f,
        "{year}"@,
        match year {
            Some(y) => decimal(y as nat),
            None => "Unknown"@,
        },
    );
    replaced(g, "{ext}"@, "mkv"@)
}

/// What a naming template gives for an example episode: see
/// `naming_preview`.
pub fn preview_naming(
    template: &str,
    anime_title: &str,
    episode: u32,
    group: &Option<String>,
    year: Option<u32>,
) -> (out: String)
    ensures
        out@ == naming_preview(template@, anime_title@, episode, text_of(*group), year),
{
    let title = chars_of(anime_title);
    let two = decimal_padded_chars(episode as u128, 2);
    let three = decimal_padded_chars(episode as u128, 3);
    let mut text = replace_all(&chars_of(template), &chars_of("{title}"), &title);
    text = replace_all(&text, &chars_of("{title_romaji}"), &title);
    text = replace_all(&text, &chars_of("{episode}"), &two);
    text = replace_all(&text, &chars_of("{episode:02}"), &two);
    text = replace_all(&text, &chars_of("{episode:03}"), &three);
    let group_name = match group {
        Some(g) => chars_of(g.as_str()),
        None => chars_of("Unknown"),
    };
    text = replace_all(&text, &chars_of("{group}"), &group_name);
    let year_text = match year {
        Some(y) => decimal_chars(y as u128),
        None => chars_of("Unknown"),
    };
    text = replace_all(&text, &chars_of("{year}"), &year_text);
    text = replace_all(&text, &chars_of("{ext}"), &chars_of("mkv"));
    string_of(&text)
}

} // verus!
