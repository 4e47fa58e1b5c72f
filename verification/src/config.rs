//! Settings: what they are, their defaults, and where they are kept.

use vstd::prelude::*;

use crate::hotkey::Platform;
use crate::text;

verus! {

/// The saved settings.
#[derive(Debug, Clone)]
pub struct Config {
    /// Part of the name of the input device. Empty: the system default.
    pub mic: String,
    /// Hotkey preset.
    pub hotkey: String,
    /// API key from AI Studio.
    pub api_key: String,
    /// BCP-47 hints such as "en-US". Empty: the language is detected.
    pub language_codes: Vec<String>,
    /// Transcription mode: "smart" or "verbatim".
    pub mode: String,
}

/// What the settings say.
pub struct ConfigView {
    pub mic: Seq<char>,
    pub hotkey: Seq<char>,
    pub api_key: Seq<char>,
    pub language_codes: Seq<Seq<char>>,
    pub mode: Seq<char>,
}

impl View for Config {
    type V = ConfigView;

    open spec fn view(&self) -> ConfigView {
        ConfigView {
            mic: self.mic@,
            hotkey: self.hotkey@,
            api_key: self.api_key@,
            language_codes: text::views(self.language_codes@),
            mode: self.mode@,
        }
    }
}

impl ConfigView {
    /// The settings of a first run.
    pub open spec fn initial() -> ConfigView {
        ConfigView {
            mic: Seq::empty(),
            hotkey: "Ctrl+Space"@,
            api_key: Seq::empty(),
            language_codes: Seq::empty(),
            mode: "smart"@,
        }
    }
}

/// The mode of settings that do not name one.
pub fn default_mode() -> (r: String)
    ensures
        r@ == "smart"@,
{
    "smart".to_string()
}

impl Default for Config {
    fn default() -> (r: Config)
        ensures
            r@ == ConfigView::initial(),
    {
        let r = Config {
            mic: String::new(),
            hotkey: "Ctrl+Space".to_string(),
            api_key: String::new(),
            language_codes: Vec::new(),
            mode: default_mode(),
        };
        assert(r@.language_codes =~= Seq::empty());
        r
    }
}

/// What decides where the settings are kept. A variable that is not set, or
/// not text, is `None`.
pub struct ConfigEnv {
    pub platform: Platform,
    /// `APPDATA`
    pub appdata: Option<String>,
    /// `XDG_CONFIG_HOME`
    pub xdg_config_home: Option<String>,
    /// `HOME`
    pub home: Option<String>,
    /// `USERPROFILE`
    pub user_profile: Option<String>,
}

/// The path of the settings file, part by part.
pub open spec fn config_parts(env: ConfigEnv) -> Seq<Seq<char>> {
    if env.platform == Platform::Windows && env.appdata is Some {
        seq![env.appdata->0@, "Utterly"@, "config.json"@]
    } else if env.platform == Platform::Linux && env.xdg_config_home is Some {
        seq![env.xdg_config_home->0@, "utterly"@, "config.json"@]
    } else if env.home is Some {
        seq![env.home->0@, ".config"@, "utterly"@, "config.json"@]
    } else if env.platform == Platform::Windows && env.user_profile is Some {
        seq![env.user_profile->0@, "AppData"@, "Roaming"@, "Utterly"@, "config.json"@]
    } else {
        seq!["."@, "utterly-config.json"@]
    }
}

/// The path of the settings file, part by part: the XDG directory on Linux,
/// `%APPDATA%` on Windows, `~/.config` everywhere else, macOS among them, and
/// where the variable is not set.
pub fn config_path(env: ConfigEnv) -> (r: Vec<String>)
    ensures
        text::views(r@) == config_parts(env),
{
    let mut r: Vec<String> = Vec::new();
    let ghost parts = config_parts(env);
    if env.platform == Platform::Windows && env.appdata.is_some() {
        r.push(env.appdata.unwrap());
        r.push("Utterly".to_string());
        r.push("config.json".to_string());
    } else if env.platform == Platform::Linux && env.xdg_config_home.is_some() {
        r.push(env.xdg_config_home.unwrap());
        r.push("utterly".to_string());
        r.push("config.json".to_string());
    } else if env.home.is_some() {
        r.push(env.home.unwrap());
        r.push(".config".to_string());
        r.push("utterly".to_string());
        r.push("config.json".to_string());
    } else if env.platform == Platform::Windows && env.user_profile.is_some() {
        r.push(env.user_profile.unwrap());
        r.push("AppData".to_string());
        r.push("Roaming".to_string());
        r.push("Utterly".to_string());
        r.push("config.json".to_string());
    } else {
        r.push(".".to_string());
        r.push("utterly-config.json".to_string());
    }
    assert(text::views(r@) =~= parts);
    r
}

/// Each platform reads its own variables only: outside Windows those of Windows
/// do not matter, and outside Linux the XDG directory does not.
pub proof fn law_variables_belong_to_a_platform(a: ConfigEnv, b: ConfigEnv)
    requires
        a.platform == b.platform,
        a.home == b.home,
        a.platform == Platform::Windows ==> a.appdata == b.appdata && a.user_profile
            == b.user_profile,
        a.platform == Platform::Linux ==> a.xdg_config_home == b.xdg_config_home,
    ensures
        config_parts(a) == config_parts(b),
{
}

/// The settings of a first run: the system's microphone, Ctrl+Space, no key, no
/// language hints, smart mode.
pub proof fn law_first_settings()
    ensures
        ConfigView::initial().mic.len() == 0,
        ConfigView::initial().hotkey == "Ctrl+Space"@,
        ConfigView::initial().api_key.len() == 0,
        ConfigView::initial().language_codes.len() == 0,
        ConfigView::initial().mode == "smart"@,
{
}

/// The settings file lies in the directory that the platform has for it: under
/// `%APPDATA%` on Windows, the XDG directory on Linux, else `.config` in the
/// home directory. Where none of that is known it lies in the profile on
/// Windows, and beside the program elsewhere.
pub proof fn law_settings_have_their_place(env: ConfigEnv)
    ensures
        ({
            let parts = config_parts(env);
            let roaming = env.platform == Platform::Windows && env.appdata is Some;
            let xdg = env.platform == Platform::Linux && env.xdg_config_home is Some;
            let own = roaming || xdg;
            let profile = env.platform == Platform::Windows && env.user_profile is Some;
            &&& roaming ==> parts =~= seq![env.appdata->0@, "Utterly"@, "config.json"@]
            &&& xdg ==> parts =~= seq![env.xdg_config_home->0@, "utterly"@, "config.json"@]
            &&& !own && env.home is Some ==> parts =~= seq![
                env.home->0@,
                ".config"@,
                "utterly"@,
                "config.json"@,
            ]
            &&& !own && env.home is None && profile ==> parts =~= seq![
                env.user_profile->0@,
                "AppData"@,
                "Roaming"@,
                "Utterly"@,
                "config.json"@,
            ]
            &&& !own && env.home is None && !profile ==> parts =~= seq![
                "."@,
                "utterly-config.json"@,
            ]
        }),
{
}

/// The settings say what their fields hold, each as it is.
pub proof fn law_settings_say_what_they_hold(cfg: Config, i: int)
    ensures
        cfg@.mic == cfg.mic@,
        cfg@.hotkey == cfg.hotkey@,
        cfg@.api_key == cfg.api_key@,
        cfg@.mode == cfg.mode@,
        cfg@.language_codes.len() == cfg.language_codes@.len(),
        0 <= i < cfg.language_codes@.len() ==> cfg@.language_codes[i] == cfg.language_codes@[i]@,
{
}

} // verus!
