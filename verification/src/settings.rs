//! The user's settings, and what enabling start-up with Windows writes.
//!
//! Reading and writing the settings file, and the registry, are left to
//! the caller: each setter here changes the settings only.
use vstd::prelude::*;
use crate::text::{append_str, chars_of, string_from_chars};

verus! {

/// The user's settings.
pub struct Settings {
    /// The folder of static wallpapers, once chosen.
    pub wallpaper_dir: Option<String>,
    /// The folder of live wallpapers, once chosen.
    pub live_wallpaper_dir: Option<String>,
    /// Whether the application starts with Windows.
    pub run_on_startup: bool,
    /// Whether live wallpapers pause while a full-screen window is in front.
    pub pause_on_fullscreen: bool,
    /// Whether live wallpapers play without sound.
    pub mute_live_wallpapers: bool,
}

/// The abstract settings.
pub struct SettingsView {
    pub wallpaper_dir: Option<Seq<char>>,
    pub live_wallpaper_dir: Option<Seq<char>>,
    pub run_on_startup: bool,
    pub pause_on_fullscreen: bool,
    pub mute_live_wallpapers: bool,
}

/// The abstract form of an optional path.
pub open spec fn opt_view(o: Option<String>) -> Option<Seq<char>> {
    match o {
        Some(s) => Some(s@),
        None => None,
    }
}

impl View for Settings {
    type V = SettingsView;

    open spec fn view(&self) -> SettingsView {
        SettingsView {
            wallpaper_dir: opt_view(self.wallpaper_dir),
            live_wallpaper_dir: opt_view(self.live_wallpaper_dir),
            run_on_startup: self.run_on_startup,
            pause_on_fullscreen: self.pause_on_fullscreen,
            mute_live_wallpapers: self.mute_live_wallpapers,
        }
    }
}

/// The settings of a first start: no folders, no start-up with Windows,
/// pausing for full-screen windows, muted live wallpapers.
pub open spec fn default_settings() -> SettingsView {
    SettingsView {
        wallpaper_dir: None,
        live_wallpaper_dir: None,
        run_on_startup: false,
        pause_on_fullscreen: true,
        mute_live_wallpapers: true,
    }
}

impl Default for Settings {
    /// The settings of a first start.
    fn default() -> (r: Self)
        ensures
            r@ == default_settings(),
    {
        Settings {
            wallpaper_dir: None,
            live_wallpaper_dir: None,
            run_on_startup: false,
            pause_on_fullscreen: true,
            mute_live_wallpapers: true,
        }
    }
}

impl Settings {
    /// Sets the folder of static wallpapers.
    pub fn set_wallpaper_dir(&mut self, path: String)
        ensures
            final(self)@ == (SettingsView { wallpaper_dir: Some(path@), ..old(self)@ }),
    {
        self.wallpaper_dir = Some(path);
    }

    /// Sets the folder of live wallpapers.
    pub fn set_live_wallpaper_dir(&mut self, path: String)
        ensures
            final(self)@ == (SettingsView { live_wallpaper_dir: Some(path@), ..old(self)@ }),
    {
        self.live_wallpaper_dir = Some(path);
    }

    /// Sets whether the application starts with Windows.
    pub fn set_run_on_startup(&mut self, enabled: bool)
        ensures
            final(self)@ == (SettingsView { run_on_startup: enabled, ..old(self)@ }),
    {
        self.run_on_startup = enabled;
    }

    /// Sets whether live wallpapers pause for full-screen windows.
    pub fn set_pause_on_fullscreen(&mut self, enabled: bool)
        ensures
            final(self)@ == (SettingsView { pause_on_fullscreen: enabled, ..old(self)@ }),
    {
        self.pause_on_fullscreen = enabled;
    }

    /// Sets whether live wallpapers play without sound.
    pub fn set_mute_live_wallpapers(&mut self, enabled: bool)
        ensures
            final(self)@ == (SettingsView { mute_live_wallpapers: enabled, ..old(self)@ }),
    {
        self.mute_live_wallpapers = enabled;
    }
}

/// The command line registered to start the application with Windows:
/// the quoted executable path followed by `--autostart`.
pub open spec fn startup_command_spec(exe: Seq<char>) -> Seq<char> {
    seq!['"'] + exe + "\" --autostart"@
}

/// The command line registered to start the application with Windows.
pub fn startup_command(exe: &str) -> (r: String)
    ensures
        r@ == startup_command_spec(exe@),
{
    let mut v: Vec<char> = Vec::new();
    v.push('"');
    append_str(&mut v, exe);
    append_str(&mut v, "\" --autostart");
    assert(v@ =~= startup_command_spec(exe@));
    string_from_chars(&v)
}

/// What to do to the start-up entry of the registry.
pub enum StartupRegistryChange {
    /// Write this command line as the application's entry.
    SetValue(String),
    /// Remove the application's entry.
    DeleteValue,
    /// Leave the registry alone.
    Nothing,
}

/// The change to the start-up entry when start-up is `enabled`, given
/// the path of the running executable if it could be found: enabling
/// writes the start-up command for it (or nothing without a path),
/// disabling removes the entry.
pub fn startup_registry_change(enabled: bool, exe: Option<String>) -> (r: StartupRegistryChange)
    ensures
        enabled ==> match exe {
            Some(e) => r matches StartupRegistryChange::SetValue(c) && c@ == startup_command_spec(e@),
            None => r is Nothing,
        },
        !enabled ==> r is DeleteValue,
{
    if enabled {
        match exe {
            Some(e) => StartupRegistryChange::SetValue(startup_command(e.as_str())),
            None => StartupRegistryChange::Nothing,
        }
    } else {
        StartupRegistryChange::DeleteValue
    }
}

/// Whether the command-line arguments ask for a start in the background:
/// one of them is `--autostart` or `--minimized`.
pub fn is_autostart(args: &Vec<String>) -> (r: bool)
    ensures
        r == exists|i: int|
            0 <= i < args.len() && (#[trigger] args@[i]@ == "--autostart"@ || args@[i]@
                == "--minimized"@),
{
    let a = chars_of("--autostart");
    let m = chars_of("--minimized");
    let mut i: usize = 0;
    while i < args.len()
        invariant
            i <= args.len(),
            a@ == "--autostart"@,
            m@ == "--minimized"@,
            forall|k: int|
                0 <= k < i ==> !(#[trigger] args@[k]@ == "--autostart"@ || args@[k]@ == "--minimized"@),
        decreases args.len() - i,
    {
        let c = chars_of(args[i].as_str());
        if crate::text::chars_equal(&c, &a) || crate::text::chars_equal(&c, &m) {
            return true;
        }
        i = i + 1;
    }
    false
}

/// The settings file in the configuration folder.
pub fn settings_file(config_dir: &str, sep: char) -> (r: String)
    requires
        crate::paths::is_sep(sep),
    ensures
        r@ == crate::paths::joined(config_dir@, "settings.json"@, sep),
{
    let d = chars_of(config_dir);
    let n = chars_of("settings.json");
    string_from_chars(&crate::paths::join_with_separator(&d, &n, sep))
}

/// The log file of the background player in the application's folder.
pub fn live_log_file(app_dir: &str, sep: char) -> (r: String)
    requires
        crate::paths::is_sep(sep),
    ensures
        r@ == crate::paths::joined(app_dir@, "mpv_live.log"@, sep),
{
    let d = chars_of(app_dir);
    let n = chars_of("mpv_live.log");
    string_from_chars(&crate::paths::join_with_separator(&d, &n, sep))
}

} // verus!
