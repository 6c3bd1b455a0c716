//! The application's preferences: the songs directory and the UI
//! theme, with their defaults. Reading and writing the preference
//! file on disk is the surrounding application's work; the values
//! and how they change live here.
use vstd::prelude::*;

verus! {

/// The persisted preferences.
#[derive(Clone, Debug)]
pub struct AppConfig {
    pub songs_path: String,
    pub theme: String,
}

impl Default for AppConfig {
    /// A fresh configuration: the `Songs` directory and the dark theme.
    fn default() -> (c: AppConfig)
        ensures
            c.songs_path@ == "Songs"@,
            c.theme@ == "dark"@,
    {
        let mut songs = String::new();
        songs.append("Songs");
        let mut theme = String::new();
        theme.append("dark");
        proof {
            assert(songs@ =~= "Songs"@);
            assert(theme@ =~= "dark"@);
        }
        AppConfig { songs_path: songs, theme }
    }
}

/// The configured songs directory.
pub fn get_songs_path(config: &AppConfig) -> (r: String)
    ensures
        r@ == config.songs_path@,
{
    config.songs_path.clone()
}

/// Points the configuration at another songs directory.
pub fn set_songs_path(config: &mut AppConfig, path: String)
    ensures
        final(config).songs_path@ == path@,
        final(config).theme@ == old(config).theme@,
{
    config.songs_path = path;
}

/// The configured theme.
pub fn get_theme(config: &AppConfig) -> (r: String)
    ensures
        r@ == config.theme@,
{
    config.theme.clone()
}

/// Switches the configuration to another theme.
pub fn set_theme(config: &mut AppConfig, theme: String)
    ensures
        final(config).theme@ == theme@,
        final(config).songs_path@ == old(config).songs_path@,
{
    config.theme = theme;
}

} // verus!
