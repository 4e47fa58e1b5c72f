//! Push-to-talk hotkey: presets, what they hold down, and switching between
//! them without losing the one that works.

use vstd::prelude::*;

use crate::text;
use crate::text::contains;

verus! {

/// The hotkey went down or came up.
#[derive(Debug, Clone, Copy, PartialEq, Eq, Structural)]
pub enum KeyEvent {
    Pressed,
    Released,
}

/// Presets of the tray menu. All use Space; the modifiers differ. The first is
/// the default.
pub const PRESETS: [&'static str; 3] = ["Ctrl+Space", "Alt+Space", "Ctrl+Shift+Space"];

/// What a user wrote, without spacing and case.
pub open spec fn keys_in(want: Seq<char>) -> Seq<char> {
    text::lowered(text::squeezed(want))
}

/// The preset for what a user wrote. Unknown input means the default, so that
/// there is always a hotkey.
pub open spec fn preset_for(want: Seq<char>) -> Seq<char> {
    let w = keys_in(want);
    if !contains(w, "space"@) {
        "Ctrl+Space"@
    } else if contains(w, "ctrl"@) && contains(w, "shift"@) {
        "Ctrl+Shift+Space"@
    } else if contains(w, "alt"@) && !contains(w, "ctrl"@) {
        "Alt+Space"@
    } else {
        "Ctrl+Space"@
    }
}

/// The preset for what a user wrote ("ctrl + shift + space").
pub fn normalize(want: &str) -> (r: &'static str)
    ensures
        r@ == preset_for(want@),
        r@ == PRESETS@[0]@ || r@ == PRESETS@[1]@ || r@ == PRESETS@[2]@,
{
    let w = text::to_lower(text::squeeze(want).as_str());
    if text::has(w.as_str(), "space") {
        let ctrl = text::has(w.as_str(), "ctrl");
        if ctrl && text::has(w.as_str(), "shift") {
            return PRESETS[2];
        }
        if text::has(w.as_str(), "alt") && !ctrl {
            return PRESETS[1];
        }
        if ctrl {
            return PRESETS[0];
        }
    }
    PRESETS[0]
}

/// The keys held down together with Space.
#[derive(Debug, Clone, Copy, PartialEq, Eq, Structural)]
pub struct Modifiers {
    pub ctrl: bool,
    pub alt: bool,
    pub shift: bool,
}

/// The modifiers that a preset names.
pub open spec fn modifiers_of(preset: Seq<char>) -> Modifiers {
    let p = text::lowered(preset);
    Modifiers {
        ctrl: contains(p, "ctrl"@),
        alt: contains(p, "alt"@),
        shift: contains(p, "shift"@),
    }
}

/// The modifiers of the preset for what a user wrote.
pub fn to_hotkey(preset: &str) -> (r: Modifiers)
    ensures
        r == modifiers_of(preset_for(preset@)),
{
    let p = text::to_lower(normalize(preset));
    Modifiers {
        ctrl: text::has(p.as_str(), "ctrl"),
        alt: text::has(p.as_str(), "alt"),
        shift: text::has(p.as_str(), "shift"),
    }
}

proof fn lemma_ctrl_space()
    ensures
        keys_in("Ctrl+Space"@) == "ctrl+space"@,
        text::lowered("Ctrl+Space"@) == "ctrl+space"@,
        contains("ctrl+space"@, "space"@),
        contains("ctrl+space"@, "ctrl"@),
        !contains("ctrl+space"@, "alt"@),
        !contains("ctrl+space"@, "shift"@),
{
    reveal_strlit("Ctrl+Space");
    reveal_strlit("ctrl+space");
    reveal_strlit("space");
    reveal_strlit("ctrl");
    reveal_strlit("alt");
    reveal_strlit("shift");
    let s = "ctrl+space"@;
    text::lemma_squeezed_solid("Ctrl+Space"@);
    assert(text::lowered("Ctrl+Space"@) =~= s);
    assert(s.subrange(5, 10) =~= "space"@);
    assert(text::occurs_at(s, "space"@, 5));
    assert(s.subrange(0, 4) =~= "ctrl"@);
    assert(text::occurs_at(s, "ctrl"@, 0));
    assert forall|i: int| !text::occurs_at(s, "alt"@, i) by {
        if text::occurs_at(s, "alt"@, i) {
            let t = s.subrange(i, i + 3);
            assert(t[0] == s[i] && t[1] == s[i + 1]);
            assert(i == 0 || i == 1 || i == 2 || i == 3 || i == 4 || i == 5 || i == 6 || i == 7);
        }
    }
    assert forall|i: int| !text::occurs_at(s, "shift"@, i) by {
        if text::occurs_at(s, "shift"@, i) {
            let t = s.subrange(i, i + 5);
            assert(t[0] == s[i] && t[1] == s[i + 1]);
            assert(i == 0 || i == 1 || i == 2 || i == 3 || i == 4 || i == 5);
        }
    }
}

proof fn lemma_alt_space()
    ensures
        keys_in("Alt+Space"@) == "alt+space"@,
        text::lowered("Alt+Space"@) == "alt+space"@,
        contains("alt+space"@, "space"@),
        contains("alt+space"@, "alt"@),
        !contains("alt+space"@, "ctrl"@),
        !contains("alt+space"@, "shift"@),
{
    reveal_strlit("Alt+Space");
    reveal_strlit("alt+space");
    reveal_strlit("space");
    reveal_strlit("ctrl");
    reveal_strlit("alt");
    reveal_strlit("shift");
    let s = "alt+space"@;
    text::lemma_squeezed_solid("Alt+Space"@);
    assert(text::lowered("Alt+Space"@) =~= s);
    assert(s.subrange(4, 9) =~= "space"@);
    assert(text::occurs_at(s, "space"@, 4));
    assert(s.subrange(0, 3) =~= "alt"@);
    assert(text::occurs_at(s, "alt"@, 0));
    assert forall|i: int| !text::occurs_at(s, "ctrl"@, i) by {
        if text::occurs_at(s, "ctrl"@, i) {
            let t = s.subrange(i, i + 4);
            assert(t[0] == s[i] && t[1] == s[i + 1]);
            assert(i == 0 || i == 1 || i == 2 || i == 3 || i == 4 || i == 5);
        }
    }
    assert forall|i: int| !text::occurs_at(s, "shift"@, i) by {
        if text::occurs_at(s, "shift"@, i) {
            let t = s.subrange(i, i + 5);
            assert(t[0] == s[i] && t[1] == s[i + 1]);
            assert(i == 0 || i == 1 || i == 2 || i == 3 || i == 4);
        }
    }
}

proof fn lemma_ctrl_shift_space()
    ensures
        keys_in("Ctrl+Shift+Space"@) == "ctrl+shift+space"@,
        text::lowered("Ctrl+Shift+Space"@) == "ctrl+shift+space"@,
        contains("ctrl+shift+space"@, "space"@),
        contains("ctrl+shift+space"@, "ctrl"@),
        contains("ctrl+shift+space"@, "shift"@),
        !contains("ctrl+shift+space"@, "alt"@),
{
    reveal_strlit("Ctrl+Shift+Space");
    reveal_strlit("ctrl+shift+space");
    reveal_strlit("space");
    reveal_strlit("ctrl");
    reveal_strlit("alt");
    reveal_strlit("shift");
    let s = "ctrl+shift+space"@;
    text::lemma_squeezed_solid("Ctrl+Shift+Space"@);
    assert(text::lowered("Ctrl+Shift+Space"@) =~= s);
    assert(s.subrange(11, 16) =~= "space"@);
    assert(text::occurs_at(s, "space"@, 11));
    assert(s.subrange(0, 4) =~= "ctrl"@);
    assert(text::occurs_at(s, "ctrl"@, 0));
    assert(s.subrange(5, 10) =~= "shift"@);
    assert(text::occurs_at(s, "shift"@, 5));
    assert forall|i: int| !text::occurs_at(s, "alt"@, i) by {
        if text::occurs_at(s, "alt"@, i) {
            let t = s.subrange(i, i + 3);
            assert(t[0] == s[i] && t[1] == s[i + 1]);
            assert(i == 0 || i == 1 || i == 2 || i == 3 || i == 4 || i == 5 || i == 6 || i == 7
                || i == 8 || i == 9 || i == 10 || i == 11 || i == 12 || i == 13);
        }
    }
}

/// A preset is its own preset, and holds down what its name says.
pub proof fn law_presets()
    ensures
        preset_for("Ctrl+Space"@) == "Ctrl+Space"@,
        preset_for("Alt+Space"@) == "Alt+Space"@,
        preset_for("Ctrl+Shift+Space"@) == "Ctrl+Shift+Space"@,
        modifiers_of("Ctrl+Space"@) == (Modifiers { ctrl: true, alt: false, shift: false }),
        modifiers_of("Alt+Space"@) == (Modifiers { ctrl: false, alt: true, shift: false }),
        modifiers_of("Ctrl+Shift+Space"@) == (Modifiers { ctrl: true, alt: false, shift: true }),
{
    lemma_ctrl_space();
    lemma_alt_space();
    lemma_ctrl_shift_space();
}

/// Normalizing twice is normalizing once.
pub proof fn law_preset_is_stable(want: Seq<char>)
    ensures
        preset_for(preset_for(want)) == preset_for(want),
{
    law_presets();
}

/// Case and spacing of what a user wrote do not matter.
pub proof fn law_preset_ignores_case_and_spacing(want: Seq<char>)
    ensures
        preset_for(text::lowered(want)) == preset_for(want),
        preset_for(text::squeezed(want)) == preset_for(want),
{
    text::lemma_squeeze_lower(want);
    text::lemma_squeeze_lower(text::squeezed(want));
}

/// Whatever a user wrote, the hotkey holds down Ctrl or Alt, never both.
pub proof fn law_every_hotkey_has_a_modifier(want: Seq<char>)
    ensures
        modifiers_of(preset_for(want)).ctrl != modifiers_of(preset_for(want)).alt,
{
    law_presets();
}

// ---------------------------------------------------------------------------
// Holding on to a hotkey
// ---------------------------------------------------------------------------
/// Operating systems that explain a refused hotkey differently.
#[derive(Debug, Clone, Copy, PartialEq, Eq, Structural)]
pub enum Platform {
    MacOs,
    Windows,
    Linux,
    Other,
}

/// Why a hotkey may be refused.
pub open spec fn refusal_hint(platform: Platform) -> Seq<char> {
    match platform {
        Platform::MacOs => "need accessibility/input permission on macOS"@,
        Platform::Windows => "another app may hold Ctrl+Space — try another preset"@,
        Platform::Linux => "another app may hold this combo — try another preset"@,
        Platform::Other => "check input permission / conflicting hotkeys"@,
    }
}

/// What is said when the first hotkey is refused.
pub fn refusal(platform: Platform, error: &str) -> (r: String)
    ensures
        r@ == "hotkey register ("@ + refusal_hint(platform) + "): "@ + error@,
{
    let hint = match platform {
        Platform::MacOs => "need accessibility/input permission on macOS",
        Platform::Windows => "another app may hold Ctrl+Space — try another preset",
        Platform::Linux => "another app may hold this combo — try another preset",
        Platform::Other => "check input permission / conflicting hotkeys",
    };
    let mut s = "hotkey register (".to_string();
    s.append(hint);
    s.append("): ");
    s.append(error);
    s
}

/// The hotkey that is registered with the system.
#[derive(Debug, Clone, Copy, PartialEq, Eq, Structural)]
pub struct Hotkey {
    pub key: Modifiers,
}

/// How to go from one hotkey to another: let go of the first, then ask for the
/// second.
#[derive(Debug, Clone, Copy, PartialEq, Eq, Structural)]
pub struct Switch {
    pub release: Modifiers,
    pub grab: Modifiers,
}

impl Hotkey {
    /// The hotkey to register for what a user wrote.
    pub fn register(want: &str) -> (r: Hotkey)
        ensures
            r.key == modifiers_of(preset_for(want@)),
    {
        Hotkey { key: to_hotkey(want) }
    }

    /// The switch to the preset for what a user wrote.
    pub open spec fn switch_to(self, preset: Seq<char>) -> Switch {
        Switch { release: self.key, grab: modifiers_of(preset_for(preset)) }
    }

    /// How to move to another preset.
    pub fn set(&self, preset: &str) -> (r: Switch)
        ensures
            r == self.switch_to(preset@),
    {
        Switch { release: self.key, grab: to_hotkey(preset) }
    }

    /// The hotkey after a switch that the system granted or refused.
    pub open spec fn settled(self, switch: Switch, granted: bool) -> Hotkey {
        if granted {
            Hotkey { key: switch.grab }
        } else {
            self
        }
    }

    /// What has to be registered again after a switch.
    pub open spec fn regrabs(self, granted: bool) -> Option<Modifiers> {
        if granted {
            None
        } else {
            Some(self.key)
        }
    }

    /// Takes note of whether the system granted the new hotkey. If it did not,
    /// the old one stays the current one and has to be registered again.
    pub fn settle(&mut self, switch: Switch, granted: bool) -> (regrab: Option<Modifiers>)
        ensures
            *final(self) == old(self).settled(switch, granted),
            regrab == old(self).regrabs(granted),
    {
        if granted {
            self.key = switch.grab;
            None
        } else {
            Some(self.key)
        }
    }

    /// Push-to-talk never silently dies: where the current hotkey is all that
    /// is registered before a switch, the current hotkey is all that is
    /// registered after it, whether the system granted the new one or not.
    pub proof fn law_switch_keeps_one_hotkey(self, preset: Seq<char>, granted: bool)
        ensures
            ({
                let switch = self.switch_to(preset);
                held_after(set![self.key], switch, granted, self.regrabs(granted)) == set![
                    self.settled(switch, granted).key,
                ]
            }),
    {
        let switch = self.switch_to(preset);
        assert(held_after(set![self.key], switch, granted, self.regrabs(granted)) =~= set![
            self.settled(switch, granted).key,
        ]);
    }
}

/// What is registered after a switch: the first hotkey is let go of, the second
/// is added where the system grants it, and what is asked for again is added.
pub open spec fn held_after(
    held: Set<Modifiers>,
    switch: Switch,
    granted: bool,
    regrab: Option<Modifiers>,
) -> Set<Modifiers> {
    let kept = if granted {
        held.remove(switch.release).insert(switch.grab)
    } else {
        held.remove(switch.release)
    };
    match regrab {
        Some(key) => kept.insert(key),
        None => kept,
    }
}

/// What a user wrote means the preset of the keys that it names: with Space,
/// Ctrl and Shift together the third one, Alt without Ctrl the second one; all
/// else, also what names no Space, means Ctrl+Space.
pub proof fn law_preset_of_the_keys_named(want: Seq<char>)
    ensures
        ({
            let w = text::lowered(text::squeezed(want));
            let space = contains(w, "space"@);
            let ctrl = contains(w, "ctrl"@);
            let alt = contains(w, "alt"@);
            let shift = contains(w, "shift"@);
            &&& space && ctrl && shift ==> preset_for(want) == "Ctrl+Shift+Space"@
            &&& space && alt && !ctrl ==> preset_for(want) == "Alt+Space"@
            &&& !(space && ctrl && shift) && !(space && alt && !ctrl) ==> preset_for(want)
                == "Ctrl+Space"@
        }),
{
}

/// Each platform has its own words on a refused hotkey.
pub proof fn law_refusals_differ(platform: Platform)
    ensures
        platform == Platform::MacOs ==> refusal_hint(platform)
            == "need accessibility/input permission on macOS"@,
        platform == Platform::Windows ==> refusal_hint(platform)
            == "another app may hold Ctrl+Space — try another preset"@,
        platform == Platform::Linux ==> refusal_hint(platform)
            == "another app may hold this combo — try another preset"@,
        platform == Platform::Other ==> refusal_hint(platform)
            == "check input permission / conflicting hotkeys"@,
{
}

impl Hotkey {
    /// A switch that the system grants makes the preset the current hotkey, and
    /// one that it refuses leaves the old one, which is registered again.
    pub proof fn law_switch_is_settled(self, preset: Seq<char>, switch: Switch)
        ensures
            self.settled(switch, true).key == switch.grab,
            self.settled(switch, false) == self,
            self.switch_to(preset).release == self.key,
            self.switch_to(preset).grab == modifiers_of(preset_for(preset)),
            self.settled(self.switch_to(preset), true).key == modifiers_of(preset_for(preset)),
            self.settled(self.switch_to(preset), false).key == self.key,
            self.regrabs(true) is None,
            self.regrabs(false) == Some(self.key),
    {
    }
}

} // verus!
