//! Where the configuration and the history database live, and what the
//! configuration file decides.

use vstd::prelude::*;
use vstd::string::*;

use crate::text::join_path;

verus! {

/// The directory of the program's files, below the home directory. Without a
/// home directory the current one takes its place.
pub open spec fn config_dir_of(home: Option<Seq<char>>) -> Seq<char> {
    let base = match home {
        Some(path) => path,
        None => "."@,
    };
    crate::text::joined_path(crate::text::joined_path(base, ".config"@), "cursor-clip"@)
}

/// The view of an optional borrowed text.
pub open spec fn home_view(home: Option<&str>) -> Option<Seq<char>> {
    match home {
        Some(path) => Some(path@),
        None => None,
    }
}

/// The directory of the program's files. `home` is the value of `HOME`, where
/// that is set and is text.
pub fn config_dir(home: Option<&str>) -> (path: String)
    ensures
        path@ == config_dir_of(home_view(home)),
{
    let base = match home {
        Some(path) => path,
        None => ".",
    };
    let dot_config = join_path(base, ".config");
    join_path(dot_config.as_str(), "cursor-clip")
}

/// The configuration file.
pub fn config_path(home: Option<&str>) -> (path: String)
    ensures
        path@ == crate::text::joined_path(config_dir_of(home_view(home)), "config.toml"@),
{
    let dir = config_dir(home);
    join_path(dir.as_str(), "config.toml")
}

/// The history database.
pub fn history_db_path(home: Option<&str>) -> (path: String)
    ensures
        path@ == crate::text::joined_path(config_dir_of(home_view(home)), "history.stoolap.db"@),
{
    let dir = config_dir(home);
    join_path(dir.as_str(), "history.stoolap.db")
}

/// What became of reading a configuration file.
pub enum ConfigFile<T> {
    /// The file could not be read.
    Unreadable,
    /// The file was read, but it is no configuration.
    Malformed,
    /// The configuration that the file holds.
    Parsed(T),
}

/// What the configuration file says, setting by setting. One may be missing, and
/// that of the history may stand under its older name.
#[derive(Clone, Copy, Debug, PartialEq, Eq, Structural)]
pub struct SettingsFile {
    pub show_trash: Option<bool>,
    pub show_pin: Option<bool>,
    pub persistence_enabled: Option<bool>,
    /// The older name of `persistence_enabled`.
    pub persistent_history: Option<bool>,
    pub instant_paste: Option<bool>,
}

/// What the configuration file says about the history, which is all that the
/// backend reads of it.
#[derive(Clone, Copy, Debug, PartialEq, Eq, Structural)]
pub struct BackendFile {
    pub persistence_enabled: Option<bool>,
    /// The older name of `persistence_enabled`.
    pub persistent_history: Option<bool>,
}

/// The part of the configuration that the backend reads.
#[derive(Clone, Copy, Debug, PartialEq, Eq, Structural)]
pub struct BackendConfig {
    pub persistence_enabled: bool,
}

impl Default for BackendConfig {
    fn default() -> (config: Self)
        ensures
            !config.persistence_enabled,
    {
        BackendConfig { persistence_enabled: false }
    }
}

/// A setting that may be missing.
pub open spec fn setting(value: Option<bool>, default: bool) -> bool {
    match value {
        Some(v) => v,
        None => default,
    }
}

fn setting_or(value: Option<bool>, default: bool) -> (v: bool)
    ensures
        v == setting(value, default),
{
    match value {
        Some(v) => v,
        None => default,
    }
}

/// Whether the history is kept, as a file says it under either name. A file that
/// says it under both is no configuration.
pub open spec fn persistence_of(current: Option<bool>, older: Option<bool>) -> Option<bool> {
    if current is Some && older is Some {
        None
    } else if older is Some {
        Some(setting(older, false))
    } else {
        Some(setting(current, false))
    }
}

fn read_persistence(current: Option<bool>, older: Option<bool>) -> (enabled: Option<bool>)
    ensures
        enabled == persistence_of(current, older),
{
    if current.is_some() && older.is_some() {
        None
    } else if older.is_some() {
        Some(setting_or(older, false))
    } else {
        Some(setting_or(current, false))
    }
}

impl BackendFile {
    /// The configuration that the file holds, if it holds one.
    pub open spec fn config(self) -> Option<BackendConfig> {
        match persistence_of(self.persistence_enabled, self.persistent_history) {
            Some(persistence_enabled) => Some(BackendConfig { persistence_enabled }),
            None => None,
        }
    }
}

impl SettingsFile {
    /// What the backend reads of the file.
    pub open spec fn backend_part(self) -> BackendFile {
        BackendFile {
            persistence_enabled: self.persistence_enabled,
            persistent_history: self.persistent_history,
        }
    }

    /// The settings that the file holds, if it holds any. What it does not say is
    /// as for a user who never changed it.
    pub open spec fn config(self) -> Option<UserConfig> {
        match persistence_of(self.persistence_enabled, self.persistent_history) {
            Some(persistence_enabled) => Some(
                UserConfig {
                    show_trash: setting(self.show_trash, true),
                    show_pin: setting(self.show_pin, true),
                    persistence_enabled,
                    instant_paste: setting(self.instant_paste, true),
                },
            ),
            None => None,
        }
    }
}

/// Whether a file says that the history is to be kept on disk.
pub open spec fn keeps_history(file: ConfigFile<BackendFile>) -> bool {
    file matches ConfigFile::Parsed(parsed) && (parsed.config() matches Some(config)
        && config.persistence_enabled)
}

/// Whether the history is to be kept on disk. It is not, unless a configuration
/// that can be read says so.
pub fn load_persistence_enabled_from_config(file: ConfigFile<BackendFile>) -> (enabled: bool)
    ensures
        enabled == keeps_history(file),
{
    match file {
        ConfigFile::Parsed(parsed) => match read_persistence(
            parsed.persistence_enabled,
            parsed.persistent_history,
        ) {
            Some(enabled) => enabled,
            None => false,
        },
        ConfigFile::Unreadable => false,
        ConfigFile::Malformed => false,
    }
}

/// The user's settings.
#[derive(Clone, Copy, Debug, PartialEq, Eq, Structural)]
pub struct UserConfig {
    pub show_trash: bool,
    pub show_pin: bool,
    pub persistence_enabled: bool,
    pub instant_paste: bool,
}

/// The settings of a user who never changed any.
pub open spec fn default_config() -> UserConfig {
    UserConfig {
        show_trash: true,
        show_pin: true,
        persistence_enabled: false,
        instant_paste: true,
    }
}

impl Default for UserConfig {
    fn default() -> (config: Self)
        ensures
            config == default_config(),
    {
        UserConfig {
            show_trash: true,
            show_pin: true,
            persistence_enabled: false,
            instant_paste: true,
        }
    }
}

/// The settings to start with, and whether they have to be written to the
/// configuration file.
pub open spec fn start_config(file: ConfigFile<SettingsFile>) -> (UserConfig, bool) {
    match file {
        ConfigFile::Parsed(parsed) => match parsed.config() {
            Some(config) => (config, false),
            None => (default_config(), true),
        },
        _ => (default_config(), true),
    }
}

/// The settings to start with, and whether they have to be written to the
/// configuration file: that is so whenever the file did not give any.
pub fn load_or_create_config(file: ConfigFile<SettingsFile>) -> (r: (UserConfig, bool))
    ensures
        r == start_config(file),
{
    match file {
        ConfigFile::Parsed(parsed) => match read_persistence(
            parsed.persistence_enabled,
            parsed.persistent_history,
        ) {
            Some(persistence_enabled) => (
                UserConfig {
                    show_trash: setting_or(parsed.show_trash, true),
                    show_pin: setting_or(parsed.show_pin, true),
                    persistence_enabled,
                    instant_paste: setting_or(parsed.instant_paste, true),
                },
                false,
            ),
            None => (UserConfig::default(), true),
        },
        ConfigFile::Unreadable => (UserConfig::default(), true),
        ConfigFile::Malformed => (UserConfig::default(), true),
    }
}

/// What is written for some settings: all of them, under their current names.
pub open spec fn written(config: UserConfig) -> SettingsFile {
    SettingsFile {
        show_trash: Some(config.show_trash),
        show_pin: Some(config.show_pin),
        persistence_enabled: Some(config.persistence_enabled),
        persistent_history: None,
        instant_paste: Some(config.instant_paste),
    }
}

/// What is written to the configuration file for some settings.
pub fn save_config(config: &UserConfig) -> (file: SettingsFile)
    ensures
        file == written(*config),
{
    SettingsFile {
        show_trash: Some(config.show_trash),
        show_pin: Some(config.show_pin),
        persistence_enabled: Some(config.persistence_enabled),
        persistent_history: None,
        instant_paste: Some(config.instant_paste),
    }
}

/// Settings that were written are the ones to start with, and the file is left
/// as it is. The backend reads the same choice about the history from it.
pub proof fn law_saved_settings_are_loaded(config: UserConfig)
    ensures
        start_config(ConfigFile::Parsed(written(config))) == (config, false),
        keeps_history(ConfigFile::Parsed(written(config).backend_part()))
            == config.persistence_enabled,
{
}

/// Whatever a file says, the frontend and the backend agree on whether the
/// history is kept.
pub proof fn law_frontend_and_backend_agree(file: SettingsFile)
    ensures
        start_config(ConfigFile::Parsed(file)).0.persistence_enabled == keeps_history(
            ConfigFile::Parsed(file.backend_part()),
        ),
{
}

/// A file decides each setting for itself: what it says counts, whichever way, and
/// what it leaves out is shown, not kept and pasted at once. The history's setting
/// counts under either name. Such a file is left as it is.
pub proof fn law_file_decides_each_setting(file: SettingsFile)
    requires
        !(file.persistence_enabled is Some && file.persistent_history is Some),
    ensures
        ({
            let (config, rewrite) = start_config(ConfigFile::Parsed(file));
            &&& !rewrite
            &&& file.show_trash matches Some(v) ==> config.show_trash == v
            &&& file.show_pin matches Some(v) ==> config.show_pin == v
            &&& file.instant_paste matches Some(v) ==> config.instant_paste == v
            &&& file.persistence_enabled matches Some(v) ==> config.persistence_enabled == v
            &&& file.persistent_history matches Some(v) ==> config.persistence_enabled == v
            &&& file.show_trash is None ==> config.show_trash
            &&& file.show_pin is None ==> config.show_pin
            &&& file.instant_paste is None ==> config.instant_paste
            &&& file.persistence_enabled is None && file.persistent_history is None
                ==> !config.persistence_enabled
        }),
{
}

/// A file that cannot be read, that is no configuration, or that names one setting
/// twice is replaced by one that shows both buttons, keeps no history and pastes at
/// once.
pub proof fn law_unusable_file_is_replaced(file: ConfigFile<SettingsFile>)
    requires
        file matches ConfigFile::Parsed(parsed) ==> parsed.persistence_enabled is Some
            && parsed.persistent_history is Some,
    ensures
        start_config(file).1,
        start_config(file).0.show_trash,
        start_config(file).0.show_pin,
        !start_config(file).0.persistence_enabled,
        start_config(file).0.instant_paste,
{
}

/// The backend keeps the history exactly if a file says so under one name and says
/// nothing under the other.
pub proof fn law_history_is_kept_only_on_request(file: ConfigFile<BackendFile>)
    ensures
        keeps_history(file) <==> (file matches ConfigFile::Parsed(parsed) && (
        parsed.persistence_enabled == Some(true) && parsed.persistent_history is None
            || parsed.persistence_enabled is None && parsed.persistent_history == Some(true))),
{
}

/// What is written for some settings names each of them, under its current name.
pub proof fn law_every_setting_is_written(config: UserConfig)
    ensures
        written(config).show_trash == Some(config.show_trash),
        written(config).show_pin == Some(config.show_pin),
        written(config).persistence_enabled == Some(config.persistence_enabled),
        written(config).persistent_history is None,
        written(config).instant_paste == Some(config.instant_paste),
{
}

/// The program's files are in one directory below the home directory, or below the
/// current one if there is none.
pub proof fn law_files_stand_below_home(home: Seq<char>)
    requires
        home.len() > 0,
        home.last() != '/',
    ensures
        config_dir_of(Some(home)) == home + "/.config/cursor-clip"@,
        config_dir_of(Some(home + seq!['/'])) == config_dir_of(Some(home)),
        config_dir_of(None) == "./.config/cursor-clip"@,
{
    reveal_strlit("/");
    reveal_strlit(".");
    reveal_strlit(".config");
    reveal_strlit("cursor-clip");
    reveal_strlit("/.config/cursor-clip");
    reveal_strlit("./.config/cursor-clip");
    assert((home + "/"@ + ".config"@).last() == 'g');
    assert((home + seq!['/'] + ".config"@).last() == 'g');
    assert((home + seq!['/']).last() == '/');
    assert(("."@ + "/"@ + ".config"@).last() == 'g');
    assert("."@.last() == '.');
    assert(config_dir_of(Some(home)) =~= home + "/.config/cursor-clip"@);
    assert(config_dir_of(Some(home + seq!['/'])) =~= home + "/.config/cursor-clip"@);
    assert(config_dir_of(None) =~= "./.config/cursor-clip"@);
}

} // verus!
