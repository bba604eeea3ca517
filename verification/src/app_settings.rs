//! Application preferences kept in the application data directory.
use vstd::prelude::*;
use crate::path_rules::{path_push, push_component};
use crate::platform::Platform;
use crate::text::chars_of;

verus! {

/// The settings file's name in the application data directory.
pub const SETTINGS_FILE: &'static str = "settings.json";

/// A release found by the last update check.
#[derive(Clone, Debug, PartialEq, Eq)]
pub struct CachedUpdateRelease {
    pub version: String,
    pub tag_name: String,
    pub name: Option<String>,
    pub published_at: Option<String>,
}

/// Application preferences.
#[derive(Clone, Debug, PartialEq, Eq)]
pub struct AppSettings {
    pub discovery_enabled: bool,
    pub last_update_check_unix_ms: Option<i64>,
    pub latest_release: Option<CachedUpdateRelease>,
}

/// Discovery is on unless the user turned it off.
pub fn default_discovery_enabled() -> (r: bool)
    ensures
        r,
{
    true
}

/// The settings of a fresh installation.
pub open spec fn default_settings(s: AppSettings) -> bool {
    &&& s.discovery_enabled
    &&& s.last_update_check_unix_ms is None
    &&& s.latest_release is None
}

impl Default for AppSettings {
    fn default() -> (r: Self)
        ensures
            default_settings(r),
    {
        AppSettings {
            discovery_enabled: default_discovery_enabled(),
            last_update_check_unix_ms: None,
            latest_release: None,
        }
    }
}

/// Where the settings file lives for a platform.
pub fn settings_path<P: Platform>(platform: &P) -> (r: String)
    ensures
        r@ == path_push(platform.data_dir(), SETTINGS_FILE@),
{
    let mut path = platform.app_data_dir();
    let name = chars_of(SETTINGS_FILE);
    push_component(&mut path, &name);
    path
}

/// The settings in effect, given what the settings file held: `None` when
/// there is no file yet, in which case the defaults apply.
pub fn load(stored: Option<AppSettings>) -> (r: AppSettings)
    ensures
        match stored {
            Some(s) => r == s,
            None => default_settings(r),
        },
{
    match stored {
        Some(s) => s,
        None => AppSettings::default(),
    }
}

} // verus!
