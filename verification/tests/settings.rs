use utterly::cli::{apply_setting, parse_args, Command, Setting};
use utterly::config::{config_path, default_mode, Config, ConfigEnv};
use utterly::hotkey::{
    normalize, refusal, to_hotkey, Hotkey, KeyEvent, Modifiers, Platform, PRESETS,
};
use utterly::instance::{
    judge_lock, lock_holder, pid_alive, Evidence, LockStep, HEARTBEAT_MS, STALE_SECS,
};
use utterly::output::{is_valid_key, key_from_text, worth_committing};
use utterly::text::{clip, has, is_blank, join_spaced, trim};

#[test]
fn presets_normalize() {
    assert_eq!(normalize("Ctrl+Space"), "Ctrl+Space");
    assert_eq!(normalize("ctrl + shift + space"), "Ctrl+Shift+Space");
    assert_eq!(normalize("ALT+space"), "Alt+Space");
    assert_eq!(normalize("garbage"), "Ctrl+Space");
}

#[test]
fn odd_combinations_fall_back() {
    assert_eq!(normalize("ctrl+alt+space"), "Ctrl+Space");
    assert_eq!(normalize("shift+space"), "Ctrl+Space");
    assert_eq!(normalize("shift+alt+space"), "Alt+Space");
    assert_eq!(normalize("alt"), "Ctrl+Space");
    assert_eq!(normalize("ALT\u{00A0}+\u{2003}SPACE"), "Alt+Space");
    for p in PRESETS {
        assert_eq!(normalize(p), p);
    }
}

#[test]
fn presets_hold_their_modifiers() {
    assert_eq!(to_hotkey("Ctrl+Space"), Modifiers { ctrl: true, alt: false, shift: false });
    assert_eq!(to_hotkey("alt + space"), Modifiers { ctrl: false, alt: true, shift: false });
    assert_eq!(to_hotkey("CTRL+SHIFT+SPACE"), Modifiers { ctrl: true, alt: false, shift: true });
    assert_eq!(to_hotkey(""), Modifiers { ctrl: true, alt: false, shift: false });
}

#[test]
fn refused_switch_restores_the_old_hotkey() {
    let mut h = Hotkey::register("Ctrl+Space");
    let first = h.key;
    let s = h.set("Alt+Space");
    assert_eq!(s.release, first);
    assert_eq!(s.grab, to_hotkey("Alt+Space"));
    assert_eq!(h.settle(s, false), Some(first));
    assert_eq!(h.key, first);
    assert_eq!(h.settle(s, true), None);
    assert_eq!(h.key, to_hotkey("Alt+Space"));
}

#[test]
fn refusals_carry_a_hint() {
    assert_eq!(
        refusal(Platform::MacOs, "x"),
        "hotkey register (need accessibility/input permission on macOS): x"
    );
    assert_eq!(
        refusal(Platform::Windows, "x"),
        "hotkey register (another app may hold Ctrl+Space — try another preset): x"
    );
    assert_eq!(
        refusal(Platform::Linux, "x"),
        "hotkey register (another app may hold this combo — try another preset): x"
    );
    assert_eq!(
        refusal(Platform::Other, "x"),
        "hotkey register (check input permission / conflicting hotkeys): x"
    );
    assert_ne!(KeyEvent::Pressed, KeyEvent::Released);
}

#[test]
fn valid_key_accepts_plain_token() {
    assert!(is_valid_key("AIzaSyD-example-key-123"));
}

#[test]
fn valid_key_trims_surrounding_whitespace() {
    assert!(is_valid_key("  AIzaSyD-example-key-123\n"));
}

#[test]
fn valid_key_rejects_short_or_blank() {
    assert!(!is_valid_key(""));
    assert!(!is_valid_key("   "));
    assert!(!is_valid_key("short-key"));
}

#[test]
fn valid_key_rejects_internal_whitespace() {
    assert!(!is_valid_key("AIzaSyD example key 123"));
    assert!(!is_valid_key("key-with\ttab-inside-123"));
}

#[test]
fn key_length_counts_characters() {
    assert!(is_valid_key("abcdefghijkl"));
    assert!(!is_valid_key("abcdefghijk"));
    assert!(!is_valid_key("ééééééé"));
    assert!(is_valid_key("éééééééééééé"));
    assert!(!is_valid_key("abcdef\u{3000}ghijklmn"));
}

#[test]
fn clipboard_key_is_trimmed() {
    assert_eq!(key_from_text("\u{2003}AIzaSyD-example\r\n").as_deref(), Some("AIzaSyD-example"));
    assert_eq!(key_from_text("two words and more"), None);
    assert_eq!(key_from_text(""), None);
}

#[test]
fn blank_texts_are_not_committed() {
    assert!(!worth_committing(" \n\t\u{00A0}"));
    assert!(worth_committing(" a "));
}

#[test]
fn whitespace_is_the_unicode_property() {
    for c in (0u32..0x11_0000).filter_map(char::from_u32) {
        assert_eq!(is_blank(&c.to_string()), c.is_whitespace(), "{:x}", c as u32);
    }
}

#[test]
fn texts_are_cut_and_joined() {
    assert_eq!(clip("aé●d", 3), "aé●");
    assert_eq!(clip("ab", 5), "ab");
    assert_eq!(clip("ab", 0), "");
    assert_eq!(trim("\u{2028} a b \u{0B}"), "a b");
    assert_eq!(join_spaced(&vec!["a".to_string(), String::new(), "b".to_string()]), "a  b");
    assert_eq!(join_spaced(&vec![]), "");
    assert!(has("a setupComplete b", "setupComplete"));
    assert!(has("aab", "ab"));
    assert!(has("x", ""));
    assert!(!has("ab", "abc"));
}

#[test]
fn defaults_are_smart_and_ctrl_space() {
    let c = Config::default();
    assert_eq!(c.mic, "");
    assert_eq!(c.hotkey, "Ctrl+Space");
    assert_eq!(c.api_key, "");
    assert!(c.language_codes.is_empty());
    assert_eq!(c.mode, "smart");
    assert_eq!(default_mode(), "smart");
}

fn env(platform: Platform, set: &str) -> ConfigEnv {
    let var = |c: char, v: &str| if set.contains(c) { Some(v.to_string()) } else { None };
    ConfigEnv {
        platform,
        appdata: var('a', "A"),
        xdg_config_home: var('x', "X"),
        home: var('h', "H"),
        user_profile: var('u', "U"),
    }
}

#[test]
fn settings_path_follows_the_environment() {
    let (linux, windows, mac) = (Platform::Linux, Platform::Windows, Platform::MacOs);
    assert_eq!(config_path(env(windows, "axhu")), ["A", "Utterly", "config.json"]);
    assert_eq!(config_path(env(linux, "axhu")), ["X", "utterly", "config.json"]);
    assert_eq!(config_path(env(linux, "ahu")), ["H", ".config", "utterly", "config.json"]);
    assert_eq!(config_path(env(mac, "axhu")), ["H", ".config", "utterly", "config.json"]);
    assert_eq!(
        config_path(env(Platform::Other, "x")),
        [".", "utterly-config.json"]
    );
    assert_eq!(config_path(env(windows, "xhu")), ["H", ".config", "utterly", "config.json"]);
    assert_eq!(
        config_path(env(windows, "xu")),
        ["U", "AppData", "Roaming", "Utterly", "config.json"]
    );
    assert_eq!(config_path(env(linux, "au")), [".", "utterly-config.json"]);
}

fn args(line: &str) -> Vec<String> {
    line.split(' ').map(|s| s.to_string()).collect()
}

#[test]
fn flags_have_an_order() {
    assert!(matches!(parse_args(&args("utterly")), Command::Run));
    assert!(matches!(parse_args(&args("utterly --set-key K -h")), Command::Help));
    assert!(matches!(parse_args(&args("utterly --help")), Command::Help));
    assert!(matches!(parse_args(&args("utterly --set-mic M --list-mics")), Command::ListMics));
    assert!(matches!(parse_args(&args("utterly --bogus")), Command::Run));
    assert!(matches!(
        parse_args(&args("utterly --set-mode verbatim --set-mic USB")),
        Command::Change(Setting::Mic(m)) if m == "USB"
    ));
    assert!(matches!(
        parse_args(&args("utterly --set-hotkey")),
        Command::Change(Setting::Hotkey(h)) if h.is_empty()
    ));
    assert!(matches!(
        parse_args(&args("utterly --set-key a --set-key b")),
        Command::Change(Setting::Key(k)) if k == "a"
    ));
    assert!(matches!(
        parse_args(&args("utterly --set-mode verbatim")),
        Command::Change(Setting::Mode(m)) if m == "verbatim"
    ));
}

#[test]
fn settings_are_saved_in_canonical_form() {
    let mut c = Config::default();
    assert_eq!(apply_setting(&mut c, Setting::Mic(" USB ".to_string())), "mic saved");
    assert_eq!(c.mic, " USB ");
    assert_eq!(
        apply_setting(&mut c, Setting::Hotkey("alt+space".to_string())),
        "hotkey saved: Alt+Space (presets: Ctrl+Space, Alt+Space, Ctrl+Shift+Space)"
    );
    assert_eq!(c.hotkey, "Alt+Space");
    assert_eq!(apply_setting(&mut c, Setting::Key(" k \n".to_string())), "API key saved");
    assert_eq!(c.api_key, "k");
    assert_eq!(
        apply_setting(&mut c, Setting::Mode("Verbatim".to_string())),
        "mode saved: verbatim (smart|verbatim; applies to the next utterance)"
    );
    assert_eq!(c.mode, "verbatim");
}

#[test]
fn lock_files_name_a_process() {
    assert_eq!(lock_holder("1234\n"), Some(1234));
    assert_eq!(lock_holder(" +7 "), Some(7));
    assert_eq!(lock_holder("4294967295"), Some(u32::MAX));
    assert_eq!(lock_holder("4294967296"), None);
    assert_eq!(lock_holder("00000000000000000001"), Some(1));
    assert_eq!(lock_holder("+"), None);
    assert_eq!(lock_holder(""), None);
    assert_eq!(lock_holder("-1"), None);
    assert_eq!(lock_holder("12a"), None);
    for text in ["1234\n", "+7", "+", "", "-1", "++1", "4294967296", "0"] {
        assert_eq!(lock_holder(text), text.trim().parse::<u32>().ok());
    }
}

#[test]
fn only_a_dead_holder_loses_the_lock() {
    let running = Evidence::CommandLine(Some("/usr/bin/utterly\0".to_string()));
    let reused = Evidence::CommandLine(Some("/bin/sh\0".to_string()));
    let gone = Evidence::CommandLine(None);
    assert_eq!(judge_lock(Some(5), 9, &running), LockStep::Refuse);
    assert_eq!(judge_lock(Some(5), 9, &reused), LockStep::Steal);
    assert_eq!(judge_lock(Some(5), 9, &gone), LockStep::Steal);
    assert_eq!(judge_lock(None, 9, &gone), LockStep::Refuse);
    assert_eq!(judge_lock(Some(0), 9, &gone), LockStep::Refuse);
    assert_eq!(judge_lock(Some(9), 9, &gone), LockStep::Refuse);
    assert!(pid_alive(5, 9, &Evidence::LockAge(Some(STALE_SECS - 1))));
    assert!(!pid_alive(5, 9, &Evidence::LockAge(Some(STALE_SECS))));
    assert!(!pid_alive(5, 9, &Evidence::LockAge(None)));
    assert!(HEARTBEAT_MS < STALE_SECS * 1000);
}

#[test]
fn settings_do_not_touch_each_other() {
    let mut a = Config::default();
    let mut b = Config::default();
    apply_setting(&mut a, Setting::Mode("verbatim".to_string()));
    apply_setting(&mut a, Setting::Key(" k".to_string()));
    apply_setting(&mut b, Setting::Key("k ".to_string()));
    apply_setting(&mut b, Setting::Mode(" VERBATIM".to_string()));
    assert_eq!((&a.mode, &a.api_key), (&b.mode, &b.api_key));
    assert_eq!((a.mic.as_str(), a.hotkey.as_str()), ("", "Ctrl+Space"));
}
