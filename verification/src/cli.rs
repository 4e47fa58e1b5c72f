//! Command line: which flag wins, and what each setting flag changes.

use vstd::prelude::*;

use crate::config::{Config, ConfigView};
use crate::hotkey;
use crate::text;
use crate::transcribe;

verus! {

/// A setting given on the command line.
#[derive(Debug)]
pub enum Setting {
    Mic(String),
    Hotkey(String),
    Key(String),
    Mode(String),
}

/// What a setting says.
pub enum SettingView {
    Mic(Seq<char>),
    Hotkey(Seq<char>),
    Key(Seq<char>),
    Mode(Seq<char>),
}

impl View for Setting {
    type V = SettingView;

    open spec fn view(&self) -> SettingView {
        match self {
            Setting::Mic(v) => SettingView::Mic(v@),
            Setting::Hotkey(v) => SettingView::Hotkey(v@),
            Setting::Key(v) => SettingView::Key(v@),
            Setting::Mode(v) => SettingView::Mode(v@),
        }
    }
}

/// What the command line asks for.
#[derive(Debug)]
pub enum Command {
    Help,
    ListMics,
    Change(Setting),
    /// No flag: the pill and the tray.
    Run,
}

/// The first position of `flag`, or the number of arguments.
pub open spec fn flag_at(args: Seq<Seq<char>>, flag: Seq<char>) -> int
    decreases args.len(),
{
    if args.len() == 0 || args[0] == flag {
        0
    } else {
        1 + flag_at(args.drop_first(), flag)
    }
}

/// `flag` is among the arguments.
pub open spec fn given(args: Seq<Seq<char>>, flag: Seq<char>) -> bool {
    flag_at(args, flag) < args.len()
}

/// What follows the first `flag`; nothing at the end of the line.
pub open spec fn value_of(args: Seq<Seq<char>>, flag: Seq<char>) -> Seq<char> {
    let i = flag_at(args, flag) + 1;
    if i < args.len() {
        args[i]
    } else {
        Seq::empty()
    }
}

/// `cmd` is what the arguments ask for. Flags are looked for in a fixed
/// order, so that only one takes effect.
pub open spec fn asks_for(args: Seq<Seq<char>>, cmd: Command) -> bool {
    if given(args, "--help"@) || given(args, "-h"@) {
        cmd is Help
    } else if given(args, "--list-mics"@) {
        cmd is ListMics
    } else if given(args, "--set-mic"@) {
        cmd matches Command::Change(Setting::Mic(v)) && v@ == value_of(args, "--set-mic"@)
    } else if given(args, "--set-hotkey"@) {
        cmd matches Command::Change(Setting::Hotkey(v)) && v@ == value_of(args, "--set-hotkey"@)
    } else if given(args, "--set-key"@) {
        cmd matches Command::Change(Setting::Key(v)) && v@ == value_of(args, "--set-key"@)
    } else if given(args, "--set-mode"@) {
        cmd matches Command::Change(Setting::Mode(v)) && v@ == value_of(args, "--set-mode"@)
    } else {
        cmd is Run
    }
}

proof fn lemma_flag_at(args: Seq<Seq<char>>, flag: Seq<char>, i: int)
    requires
        0 <= i <= args.len(),
        forall|k: int| 0 <= k < i ==> args[k] != flag,
        i == args.len() || args[i] == flag,
    ensures
        flag_at(args, flag) == i,
    decreases args.len(),
{
    if i > 0 {
        assert(args[0] != flag);
        let t = args.drop_first();
        assert forall|k: int| 0 <= k < i - 1 implies t[k] != flag by {
            assert(t[k] == args[k + 1]);
        }
        lemma_flag_at(t, flag, i - 1);
    }
}

/// The first position of `flag`, or the number of arguments.
fn find(args: &Vec<String>, flag: &str) -> (r: usize)
    ensures
        r == flag_at(text::views(args@), flag@),
        r <= args@.len(),
{
    let ghost vs = text::views(args@);
    let mut i: usize = 0;
    while i < args.len()
        invariant
            vs == text::views(args@),
            i <= args@.len(),
            forall|k: int| 0 <= k < i ==> vs[k] != flag@,
        decreases args@.len() - i,
    {
        assert(vs[i as int] == args@[i as int]@);
        if text::same(args[i].as_str(), flag) {
            proof {
                lemma_flag_at(vs, flag@, i as int);
            }
            return i;
        }
        i = i + 1;
    }
    proof {
        lemma_flag_at(vs, flag@, i as int);
    }
    i
}

/// What follows position `at`; nothing at the end of the line.
fn after(args: &Vec<String>, at: usize) -> (r: String)
    requires
        at < args@.len(),
    ensures
        r@ == (if at + 1 < args@.len() {
            text::views(args@)[at + 1]
        } else {
            Seq::empty()
        }),
{
    let n: usize = args.len();
    if at + 1 < n {
        args[at + 1].clone()
    } else {
        String::new()
    }
}

/// What the arguments, the program's own name among them, ask for.
pub fn parse_args(args: &Vec<String>) -> (r: Command)
    ensures
        asks_for(text::views(args@), r),
{
    let n: usize = args.len();
    if find(args, "--help") < n || find(args, "-h") < n {
        return Command::Help;
    }
    if find(args, "--list-mics") < n {
        return Command::ListMics;
    }
    let mic: usize = find(args, "--set-mic");
    if mic < n {
        return Command::Change(Setting::Mic(after(args, mic)));
    }
    let key_combo: usize = find(args, "--set-hotkey");
    if key_combo < n {
        return Command::Change(Setting::Hotkey(after(args, key_combo)));
    }
    let key: usize = find(args, "--set-key");
    if key < n {
        return Command::Change(Setting::Key(after(args, key)));
    }
    let mode: usize = find(args, "--set-mode");
    if mode < n {
        return Command::Change(Setting::Mode(after(args, mode)));
    }
    Command::Run
}

/// The presets as they are listed to a user.
pub open spec fn preset_list() -> Seq<char> {
    hotkey::PRESETS@[0]@ + ", "@ + hotkey::PRESETS@[1]@ + ", "@ + hotkey::PRESETS@[2]@
}

/// The settings after a change. The hotkey and the mode are saved in their
/// canonical form, the key without whitespace around it, the microphone as it
/// was given.
pub open spec fn changed(cfg: ConfigView, setting: SettingView) -> ConfigView {
    match setting {
        SettingView::Mic(v) => ConfigView { mic: v, ..cfg },
        SettingView::Hotkey(v) => ConfigView { hotkey: hotkey::preset_for(v), ..cfg },
        SettingView::Key(v) => ConfigView { api_key: text::trimmed(v), ..cfg },
        SettingView::Mode(v) => ConfigView { mode: transcribe::mode_for(v), ..cfg },
    }
}

/// What a user is told about a change.
pub open spec fn announced(setting: SettingView) -> Seq<char> {
    match setting {
        SettingView::Mic(_) => "mic saved"@,
        SettingView::Hotkey(v) => "hotkey saved: "@ + hotkey::preset_for(v) + " (presets: "@
            + preset_list() + ")"@,
        SettingView::Key(_) => "API key saved"@,
        SettingView::Mode(v) => "mode saved: "@ + transcribe::mode_for(v)
            + " (smart|verbatim; applies to the next utterance)"@,
    }
}

/// Changes one setting and says so.
pub fn apply_setting(cfg: &mut Config, setting: Setting) -> (said: String)
    ensures
        final(cfg)@ == changed(old(cfg)@, setting@),
        said@ == announced(setting@),
        match setting {
            Setting::Mic(v) => final(cfg).mic@ == v@,
            Setting::Hotkey(v) => final(cfg).hotkey@ == hotkey::preset_for(v@),
            Setting::Key(v) => final(cfg).api_key@ == text::trimmed(v@),
            Setting::Mode(v) => final(cfg).mode@ == transcribe::mode_for(v@),
        },
        !(setting is Mic) ==> final(cfg).mic@ == old(cfg).mic@,
        !(setting is Hotkey) ==> final(cfg).hotkey@ == old(cfg).hotkey@,
        !(setting is Key) ==> final(cfg).api_key@ == old(cfg).api_key@,
        !(setting is Mode) ==> final(cfg).mode@ == old(cfg).mode@,
        final(cfg).language_codes == old(cfg).language_codes,
{
    match setting {
        Setting::Mic(v) => {
            cfg.mic = v;
            "mic saved".to_string()
        },
        Setting::Hotkey(v) => {
            cfg.hotkey = hotkey::normalize(v.as_str()).to_string();
            let mut s = "hotkey saved: ".to_string();
            s.append(cfg.hotkey.as_str());
            s.append(" (presets: ");
            s.append(hotkey::PRESETS[0]);
            s.append(", ");
            s.append(hotkey::PRESETS[1]);
            s.append(", ");
            s.append(hotkey::PRESETS[2]);
            s.append(")");
            assert(s@ =~= "hotkey saved: "@ + hotkey::preset_for(v@) + " (presets: "@
                + preset_list() + ")"@);
            s
        },
        Setting::Key(v) => {
            cfg.api_key = text::trim(v.as_str());
            "API key saved".to_string()
        },
        Setting::Mode(v) => {
            cfg.mode = transcribe::normalize_mode(v.as_str()).to_string();
            let mut s = "mode saved: ".to_string();
            s.append(cfg.mode.as_str());
            s.append(" (smart|verbatim; applies to the next utterance)");
            s
        },
    }
}

/// A setting given twice is given once, and a setting touches nothing that
/// another one set.
pub proof fn law_settings_are_independent(cfg: ConfigView, a: SettingView, b: SettingView)
    ensures
        changed(changed(cfg, a), a) == changed(cfg, a),
        !same_kind(a, b) ==> changed(changed(cfg, a), b) == changed(changed(cfg, b), a),
        same_kind(a, b) ==> changed(changed(cfg, a), b) == changed(cfg, b),
{
}

/// The two change the same setting.
pub open spec fn same_kind(a: SettingView, b: SettingView) -> bool {
    match a {
        SettingView::Mic(_) => b is Mic,
        SettingView::Hotkey(_) => b is Hotkey,
        SettingView::Key(_) => b is Key,
        SettingView::Mode(_) => b is Mode,
    }
}

/// A key without whitespace at its ends is stored as it was given, character for
/// character, whatever whitespace stands around it on the command line: so two
/// different keys are never stored as the same, and no other setting changes.
pub proof fn law_key_is_stored_as_it_is(
    cfg: ConfigView,
    before: Seq<char>,
    key: Seq<char>,
    after: Seq<char>,
    other: Seq<char>,
)
    requires
        forall|i: int| 0 <= i < before.len() ==> text::is_space(#[trigger] before[i]),
        forall|i: int| 0 <= i < after.len() ==> text::is_space(#[trigger] after[i]),
        key.len() > 0 && !text::is_space(key[0]) && !text::is_space(key[key.len() - 1]),
        other.len() > 0 && !text::is_space(other[0]) && !text::is_space(other[other.len() - 1]),
    ensures
        changed(cfg, SettingView::Key(before + key + after)).api_key == key,
        changed(cfg, SettingView::Key(key)).api_key == changed(
            cfg,
            SettingView::Key(other),
        ).api_key ==> key == other,
        changed(cfg, SettingView::Key(key)) == (ConfigView { api_key: key, ..cfg }),
{
    text::lemma_trimmed_padding(before, key, after);
    text::lemma_trimmed_solid_ends(key);
    text::lemma_trimmed_solid_ends(other);
}

/// A microphone is stored as it was given, a hotkey as the preset that it means
/// and a mode as the word that it means; no other setting changes.
pub proof fn law_settings_are_stored(cfg: ConfigView, v: Seq<char>)
    ensures
        changed(cfg, SettingView::Mic(v)) == (ConfigView { mic: v, ..cfg }),
        changed(cfg, SettingView::Hotkey(v)) == (ConfigView {
            hotkey: hotkey::preset_for(v),
            ..cfg
        }),
        changed(cfg, SettingView::Mode(v)) == (ConfigView {
            mode: transcribe::mode_for(v),
            ..cfg
        }),
{
}

/// A user is told the preset or the mode that was stored.
pub proof fn law_changes_are_told(v: Seq<char>)
    ensures
        announced(SettingView::Mic(v)) == "mic saved"@,
        announced(SettingView::Key(v)) == "API key saved"@,
        announced(SettingView::Hotkey(v)) == "hotkey saved: "@ + hotkey::preset_for(v)
            + " (presets: Ctrl+Space, Alt+Space, Ctrl+Shift+Space)"@,
        announced(SettingView::Mode(v)) == "mode saved: "@ + transcribe::mode_for(v)
            + " (smart|verbatim; applies to the next utterance)"@,
{
    reveal_strlit(" (presets: ");
    reveal_strlit("Ctrl+Space");
    reveal_strlit("Alt+Space");
    reveal_strlit("Ctrl+Shift+Space");
    reveal_strlit(", ");
    reveal_strlit(")");
    reveal_strlit(" (presets: Ctrl+Space, Alt+Space, Ctrl+Shift+Space)");
    assert(announced(SettingView::Hotkey(v)) =~= "hotkey saved: "@ + hotkey::preset_for(v)
        + " (presets: Ctrl+Space, Alt+Space, Ctrl+Shift+Space)"@);
}

/// A flag counts wherever it stands on the line.
pub proof fn law_flag_counts_anywhere(args: Seq<Seq<char>>, flag: Seq<char>)
    ensures
        given(args, flag) <==> args.contains(flag),
    decreases args.len(),
{
    if args.len() > 0 {
        let rest = args.drop_first();
        law_flag_counts_anywhere(rest, flag);
        if args[0] == flag {
            assert(args.contains(args[0]));
        } else if rest.contains(flag) {
            let i = choose|i: int| 0 <= i < rest.len() && rest[i] == flag;
            assert(args[i + 1] == flag);
        } else if args.contains(flag) {
            let i = choose|i: int| 0 <= i < args.len() && args[i] == flag;
            assert(rest[i - 1] == flag);
        }
    }
}

/// The value of a flag is what follows it where it first stands, as it is; at
/// the end of the line it is empty.
pub proof fn law_value_follows_its_flag(
    a: Seq<Seq<char>>,
    flag: Seq<char>,
    v: Seq<char>,
    b: Seq<Seq<char>>,
)
    requires
        !a.contains(flag),
    ensures
        value_of(a + seq![flag, v] + b, flag) == v,
        value_of(a + seq![flag], flag) == Seq::<char>::empty(),
{
    let long = a + seq![flag, v] + b;
    let short = a + seq![flag];
    let n = a.len() as int;
    assert forall|k: int| 0 <= k < n implies long[k] != flag && short[k] != flag by {
        assert(long[k] == a[k] && short[k] == a[k]);
        assert(a.contains(a[k]));
    }
    lemma_flag_at(long, flag, n);
    lemma_flag_at(short, flag, n);
}

/// One flag alone takes effect: help before the list of microphones, that
/// before the settings, and these in their order; a line without any of them
/// runs the program.
pub proof fn law_one_flag_takes_effect(args: Seq<Seq<char>>, cmd: Command)
    requires
        asks_for(args, cmd),
    ensures
        ({
            let help = args.contains("--help"@) || args.contains("-h"@);
            let list = args.contains("--list-mics"@);
            let mic = args.contains("--set-mic"@);
            let key_combo = args.contains("--set-hotkey"@);
            let key = args.contains("--set-key"@);
            let mode = args.contains("--set-mode"@);
            &&& cmd is Help <==> help
            &&& cmd is ListMics <==> !help && list
            &&& cmd is Run <==> !help && !list && !mic && !key_combo && !key && !mode
            &&& !help && !list && mic ==> (cmd matches Command::Change(Setting::Mic(v)) && v@
                == value_of(args, "--set-mic"@))
            &&& !help && !list && !mic && key_combo ==> (cmd matches Command::Change(
                Setting::Hotkey(v),
            ) && v@ == value_of(args, "--set-hotkey"@))
            &&& !help && !list && !mic && !key_combo && key ==> (cmd matches Command::Change(
                Setting::Key(v),
            ) && v@ == value_of(args, "--set-key"@))
            &&& !help && !list && !mic && !key_combo && !key && mode ==> (
            cmd matches Command::Change(Setting::Mode(v)) && v@ == value_of(args, "--set-mode"@))
        }),
{
    law_flag_counts_anywhere(args, "--help"@);
    law_flag_counts_anywhere(args, "-h"@);
    law_flag_counts_anywhere(args, "--list-mics"@);
    law_flag_counts_anywhere(args, "--set-mic"@);
    law_flag_counts_anywhere(args, "--set-hotkey"@);
    law_flag_counts_anywhere(args, "--set-key"@);
    law_flag_counts_anywhere(args, "--set-mode"@);
}

/// A setting says what it holds, as it is.
pub proof fn law_setting_says_what_it_holds(v: String)
    ensures
        Setting::Mic(v)@ == SettingView::Mic(v@),
        Setting::Hotkey(v)@ == SettingView::Hotkey(v@),
        Setting::Key(v)@ == SettingView::Key(v@),
        Setting::Mode(v)@ == SettingView::Mode(v@),
{
}

} // verus!
