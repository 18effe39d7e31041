use vstd::prelude::*;

verus! {

/// Directory (relative to the home directory) where Uplink keeps its data.
pub const DEFAULT_CACHE_DIR: &'static str = ".uplink";

/// General configuration options.
pub struct General {
    pub theme: String,
    pub show_splash: bool,
    pub enable_overlay: bool,
}

/// Privacy-related configuration options.
pub struct Privacy {
    pub satellite_sync_nodes: bool,
    pub safer_file_scanning: bool,
}

/// Audio and video-related configuration options.
pub struct AudioVideo {
    pub noise_suppression: bool,
    pub call_timer: bool,
}

/// Extension-related configuration options.
pub struct Extensions {
    pub enable: bool,
}

/// Developer-related configuration options.
pub struct Developer {
    pub developer_mode: bool,
    pub cache_dir: String,
}

/// The configuration of the application.
pub struct Configuration {
    pub general: General,
    pub privacy: Privacy,
    pub audiovideo: AudioVideo,
    pub extensions: Extensions,
    pub developer: Developer,
}

impl General {
    /// The default general options: empty theme name, every switch off.
    pub open spec fn is_default(self) -> bool {
        &&& self.theme@ == Seq::<char>::empty()
        &&& !self.show_splash
        &&& !self.enable_overlay
    }
}

impl Default for General {
    fn default() -> (r: Self)
        ensures
            r.is_default(),
    {
        General { theme: String::new(), show_splash: false, enable_overlay: false }
    }
}

impl Default for Privacy {
    fn default() -> (r: Self)
        ensures
            !r.satellite_sync_nodes,
            !r.safer_file_scanning,
    {
        Privacy { satellite_sync_nodes: false, safer_file_scanning: false }
    }
}

impl Default for AudioVideo {
    fn default() -> (r: Self)
        ensures
            !r.noise_suppression,
            !r.call_timer,
    {
        AudioVideo { noise_suppression: false, call_timer: false }
    }
}

impl Default for Extensions {
    fn default() -> (r: Self)
        ensures
            !r.enable,
    {
        Extensions { enable: false }
    }
}

impl Default for Developer {
    fn default() -> (r: Self)
        ensures
            !r.developer_mode,
            r.cache_dir@ == Seq::<char>::empty(),
    {
        Developer { developer_mode: false, cache_dir: String::new() }
    }
}

impl Configuration {
    /// Every section holds its default values.
    pub open spec fn is_default(self) -> bool {
        &&& self.general.is_default()
        &&& !self.privacy.satellite_sync_nodes
        &&& !self.privacy.safer_file_scanning
        &&& !self.audiovideo.noise_suppression
        &&& !self.audiovideo.call_timer
        &&& !self.extensions.enable
        &&& !self.developer.developer_mode
        &&& self.developer.cache_dir@ == Seq::<char>::empty()
    }

    /// The configuration that `new` builds: all defaults, except that the cache
    /// directory is the default cache directory.
    pub open spec fn is_initial(self) -> bool {
        &&& self.general.is_default()
        &&& !self.privacy.satellite_sync_nodes
        &&& !self.privacy.safer_file_scanning
        &&& !self.audiovideo.noise_suppression
        &&& !self.audiovideo.call_timer
        &&& !self.extensions.enable
        &&& !self.developer.developer_mode
        &&& self.developer.cache_dir@ == DEFAULT_CACHE_DIR@
    }

    /// Creates the default configuration, whose cache directory is `.uplink`.
    pub fn new() -> (r: Self)
        ensures
            r.is_initial(),
    {
        Configuration {
            general: General::default(),
            privacy: Privacy::default(),
            audiovideo: AudioVideo::default(),
            extensions: Extensions::default(),
            developer: Developer {
                developer_mode: false,
                cache_dir: String::from_str(DEFAULT_CACHE_DIR),
            },
        }
    }
}

impl Default for Configuration {
    fn default() -> (r: Self)
        ensures
            r.is_default(),
    {
        Configuration {
            general: General::default(),
            privacy: Privacy::default(),
            audiovideo: AudioVideo::default(),
            extensions: Extensions::default(),
            developer: Developer::default(),
        }
    }
}


impl Configuration {
    /// This configuration with another theme.
    pub open spec fn with_theme(self, theme: String) -> Configuration {
        Configuration { general: General { theme, ..self.general }, ..self }
    }

    /// This configuration with the overlay switched on or off.
    pub open spec fn with_overlay(self, overlay: bool) -> Configuration {
        Configuration { general: General { enable_overlay: overlay, ..self.general }, ..self }
    }

    /// This configuration with developer mode switched on or off.
    pub open spec fn with_developer_mode(self, developer_mode: bool) -> Configuration {
        Configuration { developer: Developer { developer_mode, ..self.developer }, ..self }
    }

    /// Sets the theme. The caller then saves the configuration, as after
    /// every change of a setting.
    pub fn set_theme(&mut self, theme_name: String)
        ensures
            *final(self) == old(self).with_theme(theme_name),
    {
        self.general.theme = theme_name;
    }

    /// Switches the overlay on or off. The caller then saves the
    /// configuration.
    pub fn set_overlay(&mut self, overlay: bool)
        ensures
            *final(self) == old(self).with_overlay(overlay),
    {
        self.general.enable_overlay = overlay;
    }

    /// Switches developer mode on or off. The caller then saves the
    /// configuration.
    pub fn set_developer_mode(&mut self, developer_mode: bool)
        ensures
            *final(self) == old(self).with_developer_mode(developer_mode),
    {
        self.developer.developer_mode = developer_mode;
    }

    /// The configuration that loading gives: the one read from the
    /// configuration file when it could be read and parsed, the initial one
    /// otherwise.
    pub fn from_loaded(parsed: Option<Configuration>) -> (r: Configuration)
        ensures
            match parsed {
                Some(c) => r == c,
                None => r.is_initial(),
            },
    {
        match parsed {
            Some(c) => c,
            None => Configuration::new(),
        }
    }
}

/// Flips developer mode, as the developer-mode shortcut does.
pub fn toggle_devmode(config: &mut Configuration)
    ensures
        *final(config) == old(config).with_developer_mode(!old(config).developer.developer_mode),
{
    let devmode = config.developer.developer_mode;
    config.set_developer_mode(!devmode);
}

/// Flipping developer mode twice gives back the configuration.
pub proof fn lemma_toggle_devmode_twice(c: Configuration)
    ensures
        c.with_developer_mode(!c.developer.developer_mode).with_developer_mode(
            !c.with_developer_mode(!c.developer.developer_mode).developer.developer_mode,
        ) == c,
{
}

/// A setting that was set is read back, and setting one setting leaves the
/// others as they were.
pub proof fn lemma_settings_independent(c: Configuration, theme: String, overlay: bool, dev: bool)
    ensures
        c.with_theme(theme).general.theme == theme,
        c.with_overlay(overlay).general.enable_overlay == overlay,
        c.with_developer_mode(dev).developer.developer_mode == dev,
        c.with_theme(theme).with_overlay(overlay) == c.with_overlay(overlay).with_theme(theme),
        c.with_theme(theme).developer == c.developer,
        c.with_overlay(overlay).developer == c.developer,
        c.with_developer_mode(dev).general == c.general,
{
}

/// The name of the configuration file within the home directory.
pub const CONFIG_FILE_NAME: &'static str = "/Config.json";

/// Where the configuration file lies, relative to the home directory:
/// `.uplink/Config.json`.
pub fn config_file_relative_path() -> (r: String)
    ensures
        r@ == DEFAULT_CACHE_DIR@ + CONFIG_FILE_NAME@,
{
    let mut r = String::from_str(DEFAULT_CACHE_DIR);
    r.append(CONFIG_FILE_NAME);
    r
}

} // verus!
