//! User settings and their defaults.

use vstd::prelude::*;
use crate::external::expand_tilde;
use crate::text::chars_of;

verus! {

broadcast use vstd::string::group_string_axioms;

/// What is captured and from where.
#[derive(Debug, Clone)]
pub struct ActivityCaptureConfig {
    pub enabled: bool,
    pub app_monitoring: bool,
    pub file_monitoring: bool,
    pub clipboard_monitoring: bool,
    pub browser_history: bool,
}

/// How often the screen is captured and whether it is read with OCR.
#[derive(Debug, Clone)]
pub struct ScreenCaptureConfig {
    pub enabled: bool,
    pub interval_seconds: u64,
    pub active_window_only: bool,
    pub ocr_enabled: bool,
}

/// What is never recorded, and for how long records are kept.
#[derive(Debug, Clone)]
pub struct PrivacyConfig {
    pub exclude_apps: Vec<String>,
    pub exclude_directories: Vec<String>,
    pub pause_on_lock: bool,
    pub retention_days: u32,
}

/// Limits on the background work.
#[derive(Debug, Clone)]
pub struct PerformanceConfig {
    pub max_concurrent_ocr: usize,
    pub embedding_batch_size: usize,
    pub screenshot_cache_mb: usize,
}

/// Developer switches.
#[derive(Debug, Clone)]
pub struct DeveloperConfig {
    pub debug_mode: bool,
    pub metrics_port: u16,
}

/// All user settings.  `data_dir` is the directory path as text.
#[derive(Debug, Clone)]
pub struct Settings {
    pub data_dir: String,
    pub log_level: String,
    pub activity_capture: ActivityCaptureConfig,
    pub screen_capture: ScreenCaptureConfig,
    pub privacy: PrivacyConfig,
    pub performance: PerformanceConfig,
    pub developer: DeveloperConfig,
}

/// The directory `.memoria` inside `home`, joined as a Unix path is: with a
/// separator unless `home` is empty or already ends in one.
pub open spec fn data_dir_in(home: Seq<char>) -> Seq<char> {
    if home.len() == 0 {
        ".memoria"@
    } else if home.last() == '/' {
        home + ".memoria"@
    } else {
        home + "/.memoria"@
    }
}

/// `s` holds the default settings, with `data_dir` as its data directory.
pub open spec fn is_default_settings(s: Settings, data_dir: Seq<char>) -> bool {
    &&& s.data_dir@ == data_dir
    &&& s.log_level@ == "info"@
    &&& s.activity_capture.enabled
    &&& s.activity_capture.app_monitoring
    &&& s.activity_capture.file_monitoring
    &&& s.activity_capture.clipboard_monitoring
    &&& !s.activity_capture.browser_history
    &&& s.screen_capture.enabled
    &&& s.screen_capture.interval_seconds == 30
    &&& s.screen_capture.active_window_only
    &&& s.screen_capture.ocr_enabled
    &&& s.privacy.exclude_apps.deep_view() == seq!["1Password"@, "Bitwarden"@, "Keychain Access"@]
    &&& s.privacy.exclude_directories.deep_view() == seq!["/Users/*/Library/Containers"@]
    &&& s.privacy.pause_on_lock
    &&& s.privacy.retention_days == 90
    &&& s.performance.max_concurrent_ocr == 2
    &&& s.performance.embedding_batch_size == 10
    &&& s.performance.screenshot_cache_mb == 500
    &&& !s.developer.debug_mode
    &&& s.developer.metrics_port == 9090
}

/// The data directory under the given home directory.
pub fn data_dir_in_home(home: &str) -> (r: String)
    ensures
        r@ == data_dir_in(home@),
{
    let v = chars_of(home);
    if v.len() == 0 {
        ".memoria".to_owned()
    } else if v[v.len() - 1] == '/' {
        let mut r = home.to_owned();
        r.append(".memoria");
        r
    } else {
        let mut r = home.to_owned();
        r.append("/.memoria");
        r
    }
}

impl Settings {
    /// The default settings, keeping data in `data_dir`.
    pub fn defaults_with_data_dir(data_dir: String) -> (s: Settings)
        ensures
            is_default_settings(s, data_dir@),
    {
        let mut exclude_apps: Vec<String> = Vec::new();
        exclude_apps.push("1Password".to_owned());
        exclude_apps.push("Bitwarden".to_owned());
        exclude_apps.push("Keychain Access".to_owned());
        assert(exclude_apps.deep_view() =~= seq!["1Password"@, "Bitwarden"@, "Keychain Access"@]);
        let mut exclude_directories: Vec<String> = Vec::new();
        exclude_directories.push("/Users/*/Library/Containers".to_owned());
        assert(exclude_directories.deep_view() =~= seq!["/Users/*/Library/Containers"@]);
        Settings {
            data_dir,
            log_level: "info".to_owned(),
            activity_capture: ActivityCaptureConfig {
                enabled: true,
                app_monitoring: true,
                file_monitoring: true,
                clipboard_monitoring: true,
                browser_history: false,
            },
            screen_capture: ScreenCaptureConfig {
                enabled: true,
                interval_seconds: 30,
                active_window_only: true,
                ocr_enabled: true,
            },
            privacy: PrivacyConfig {
                exclude_apps,
                exclude_directories,
                pause_on_lock: true,
                retention_days: 90,
            },
            performance: PerformanceConfig {
                max_concurrent_ocr: 2,
                embedding_batch_size: 10,
                screenshot_cache_mb: 500,
            },
            developer: DeveloperConfig { debug_mode: false, metrics_port: 9090 },
        }
    }
}

impl Default for Settings {
    /// The default settings, keeping data in `.memoria` under the user's home
    /// directory.
    fn default() -> (s: Settings)
        ensures
            exists|home: Seq<char>| is_default_settings(s, #[trigger] data_dir_in(home)),
    {
        let home = expand_tilde("~");
        let dir = data_dir_in_home(home.as_str());
        Settings::defaults_with_data_dir(dir)
    }
}

} // verus!
