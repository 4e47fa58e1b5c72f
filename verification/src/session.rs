//! The session: press, stream, release, commit.
//!
//! The caller owns the microphone, the socket, the window and the clock. It
//! asks a `Session` what to do, does it, and reports what came of it. Times
//! are in ms on one clock that never runs backwards.

use vstd::prelude::*;

use crate::audio::{Level, CHUNK, LEVEL_METER, LEVEL_SILENCE, LEVEL_ZERO};
use crate::cli;
use crate::cli::SettingView;
use crate::config::{Config, ConfigView};
use crate::hotkey;
use crate::hotkey::KeyEvent;
use crate::instance::HEARTBEAT_MS;
use crate::output;
use crate::text;
use crate::transcribe;
use crate::transcribe::{EventView, TranscriptEvent};
use crate::tray::{CmdView, MenuCmd};
use crate::ui::{Mode, PillUpdate, PillView, UiCmd};

verus! {

/// How long the press waits for the server's answer to the setup.
pub const SETUP_VERIFY_MS: u64 = 400;

/// The longest wait for final texts after a release.
pub const GRACE_CAP_MS: u64 = 4_000;

/// Silence of the server, once a final text came, that ends the wait early.
pub const GRACE_QUIET_MS: u64 = 500;

/// The timeout of one read during that wait.
pub const GRACE_READ_MS: u64 = 100;

/// The timeout of one read while recording.
pub const POLL_READ_MS: u64 = 5;

/// How many reads there are in one turn of the recording loop.
pub const POLL_READS: u32 = 3;

/// How many chunks are sent in one turn of the recording loop.
pub const BURST: u32 = 4;

/// Chunks of digital silence that make a stream stale.
pub const STALE_TAKES: u32 = 30;

/// How long a stream may deliver nothing.
pub const STARVED_MS: u64 = 3_000;

/// How old a stream has to be before that counts.
pub const SETTLED_MS: u64 = 5_000;

/// The wait before a stale stream is reopened: at first, and at most.
pub const REOPEN_MIN_MS: u64 = 5_000;

pub const REOPEN_MAX_MS: u64 = 60_000;

/// How often the idle meter is fed, and how long it may go unfed.
pub const IDLE_PUSH_MS: u64 = 100;

pub const IDLE_REST_MS: u64 = 2_000;

/// How often the demo repaints its state.
pub const DEMO_MS: u64 = 2_000;

/// 3000.0 and 500.0: the levels that the demo shows.
pub const LEVEL_DEMO_LISTENING: u32 = 0x453B_8000;

pub const LEVEL_DEMO_TRANSCRIBING: u32 = 0x43FA_0000;

// ---------------------------------------------------------------------------
// State
// ---------------------------------------------------------------------------
/// The state of the session.
pub struct Session {
    pub cfg: Config,
    /// The hotkey is down and audio streams.
    pub recording: bool,
    /// While an utterance runs, whether it runs in verbatim mode. The settings
    /// may change meanwhile; that is for the next one.
    pub live: Option<bool>,
    /// Final texts of the utterance, in order.
    pub finals: Vec<String>,
    /// The latest preview text.
    pub interim: String,
    /// Chunks of digital silence in a row.
    pub silent_takes: u32,
    /// When a chunk was last taken.
    pub last_take: u64,
    /// When the stream was opened.
    pub opened: u64,
    /// When the stream was last reopened, or that was tried.
    pub last_reopen: Option<u64>,
    /// How long to wait between two reopens.
    pub reopen_wait: u64,
    /// When the instance lock was last refreshed.
    pub last_touch: u64,
    /// When the idle meter was last fed.
    pub last_idle: u64,
    /// The state that a demo shows.
    pub demo: Option<Mode>,
    /// When it was last shown.
    pub last_demo: Option<u64>,
}

/// What the state says.
pub struct SessionView {
    pub cfg: ConfigView,
    pub recording: bool,
    pub live: Option<bool>,
    pub finals: Seq<Seq<char>>,
    pub interim: Seq<char>,
    pub silent_takes: u32,
    pub last_take: u64,
    pub opened: u64,
    pub last_reopen: Option<u64>,
    pub reopen_wait: u64,
    pub last_touch: u64,
    pub last_idle: u64,
    pub demo: Option<Mode>,
    pub last_demo: Option<u64>,
}

impl View for Session {
    type V = SessionView;

    open spec fn view(&self) -> SessionView {
        SessionView {
            cfg: self.cfg@,
            recording: self.recording,
            live: self.live,
            finals: text::views(self.finals@),
            interim: self.interim@,
            silent_takes: self.silent_takes,
            last_take: self.last_take,
            opened: self.opened,
            last_reopen: self.last_reopen,
            reopen_wait: self.reopen_wait,
            last_touch: self.last_touch,
            last_idle: self.last_idle,
            demo: self.demo,
            last_demo: self.last_demo,
        }
    }
}

/// The time from `then` to `now`, as a clock that never runs backwards tells.
pub open spec fn since(now: u64, then: u64) -> int {
    if now >= then {
        now - then
    } else {
        0
    }
}

fn elapsed(now: u64, then: u64) -> (r: u64)
    ensures
        r == since(now, then),
{
    now.saturating_sub(then)
}

impl SessionView {
    /// The reopen wait stays between its bounds.
    pub open spec fn wf(self) -> bool {
        REOPEN_MIN_MS <= self.reopen_wait <= REOPEN_MAX_MS
    }

    /// The settings ask for verbatim mode.
    pub open spec fn verbatim_set(self) -> bool {
        transcribe::mode_for(self.cfg.mode) == "verbatim"@
    }

    /// Final texts come while the user speaks: the utterance that runs is
    /// verbatim, or the next one will be where none runs.
    pub open spec fn verbatim(self) -> bool {
        match self.live {
            Some(v) => v,
            None => self.verbatim_set(),
        }
    }

    /// What the pill is told.
    pub open spec fn pill(self, mode: Mode, bits: u32, title: Seq<char>) -> PillView {
        PillView { mode, level: Level { bits }, title, verbatim_live: self.verbatim() }
    }

    /// The pill at rest, with a title.
    pub open spec fn idle(self, title: Seq<char>) -> PillView {
        self.pill(Mode::Idle, LEVEL_ZERO, title)
    }

    /// No key to connect with.
    pub open spec fn keyless(self) -> bool {
        text::trimmed(self.cfg.api_key).len() == 0
    }

    /// The text so far: the final texts, or the preview while there are none.
    pub open spec fn transcript(self) -> Seq<char> {
        if self.finals.len() == 0 {
            self.interim
        } else {
            text::spaced(self.finals)
        }
    }
}

impl Session {
    pub open spec fn wf(&self) -> bool {
        self@.wf()
    }

    /// A session that has just opened its stream.
    pub fn new(cfg: Config, demo: Option<Mode>, now: u64) -> (r: Session)
        ensures
            r.wf(),
            r@ == (SessionView {
                cfg: cfg@,
                recording: false,
                live: None,
                finals: Seq::empty(),
                interim: Seq::empty(),
                silent_takes: 0,
                last_take: now,
                opened: now,
                last_reopen: None,
                reopen_wait: REOPEN_MIN_MS,
                last_touch: now,
                last_idle: now,
                demo,
                last_demo: None,
            }),
    {
        let r = Session {
            cfg,
            recording: false,
            live: None,
            finals: Vec::new(),
            interim: String::new(),
            silent_takes: 0,
            last_take: now,
            opened: now,
            last_reopen: None,
            reopen_wait: REOPEN_MIN_MS,
            last_touch: now,
            last_idle: now,
            demo,
            last_demo: None,
        };
        assert(r@.finals =~= Seq::empty());
        r
    }

    /// An update for the pill.
    pub fn push_pill(&self, mode: Mode, level: Level, title: &str) -> (r: PillUpdate)
        ensures
            r@ == self@.pill(mode, level.bits, title@),
    {
        let verbatim_live = match self.live {
            Some(v) => v,
            None => self.is_verbatim_set(),
        };
        PillUpdate { mode, level, title: title.to_string(), verbatim_live }
    }

    fn is_verbatim_set(&self) -> (r: bool)
        ensures
            r == self@.verbatim_set(),
    {
        text::same(transcribe::normalize_mode(self.cfg.mode.as_str()), "verbatim")
    }

    /// The pill at rest, with a title of two parts.
    fn say(&self, head: &str, rest: &str) -> (r: PillUpdate)
        ensures
            r@ == self@.idle(head@ + rest@),
    {
        let mut title = head.to_string();
        title.append(rest);
        self.push_pill(Mode::Idle, Level::zero(), title.as_str())
    }

    // -----------------------------------------------------------------------
    // Start
    // -----------------------------------------------------------------------
    /// Without a key, the pill says where to get one; the page is then opened
    /// in the browser too.
    pub fn first_run(&self) -> (r: Option<PillUpdate>)
        ensures
            r is Some <==> self@.keyless(),
            r matches Some(u) ==> u@ == self@.idle(
                "Utterly — paste your AI Studio key: utterly --set-key KEY ("@
                    + output::AI_STUDIO_URL@ + ")"@,
            ),
    {
        if text::is_blank(self.cfg.api_key.as_str()) {
            let mut title =
                "Utterly — paste your AI Studio key: utterly --set-key KEY (".to_string();
            title.append(output::AI_STUDIO_URL);
            title.append(")");
            Some(self.push_pill(Mode::Idle, Level::zero(), title.as_str()))
        } else {
            None
        }
    }

    /// Everything is open.
    pub fn ready(&self) -> (r: PillUpdate)
        ensures
            r@ == self@.idle("Utterly — hold Ctrl+Space to dictate"@),
    {
        self.push_pill(Mode::Idle, Level::zero(), "Utterly — hold Ctrl+Space to dictate")
    }

    /// The microphone cannot be opened.
    pub fn mic_failed(&self, e: &str) -> (r: PillUpdate)
        ensures
            r@ == self@.idle("Utterly — mic error: "@ + e@),
    {
        self.say("Utterly — mic error: ", e)
    }

    /// The hotkey cannot be registered.
    pub fn hotkey_failed(&self, e: &str) -> (r: PillUpdate)
        ensures
            r@ == self@.idle("Utterly — hotkey error: "@ + e@),
    {
        self.say("Utterly — hotkey error: ", e)
    }

    // -----------------------------------------------------------------------
    // Timers
    // -----------------------------------------------------------------------
    /// Whether the instance lock is due to be refreshed; takes note that it is.
    pub fn heartbeat(&mut self, now: u64) -> (due: bool)
        ensures
            due == (since(now, old(self).last_touch) >= HEARTBEAT_MS),
            final(self)@ == (if due {
                SessionView { last_touch: now, ..old(self)@ }
            } else {
                old(self)@
            }),
    {
        if elapsed(now, self.last_touch) >= HEARTBEAT_MS {
            self.last_touch = now;
            true
        } else {
            false
        }
    }

    /// The demo's repaint is due.
    pub open spec fn demo_due(&self, now: u64) -> bool {
        self.demo is Some && (self.last_demo matches Some(t) ==> since(now, t) >= DEMO_MS)
    }

    /// The demo's repaint, when it is due.
    pub fn demo_tick(&mut self, now: u64) -> (r: Option<PillUpdate>)
        ensures
            r is Some <==> old(self).demo_due(now),
            r matches Some(u) ==> u@ == (if old(self).demo == Some(Mode::Listening) {
                old(self)@.pill(
                    Mode::Listening,
                    LEVEL_DEMO_LISTENING,
                    "Utterly ● Listening… (demo preview)"@,
                )
            } else {
                old(self)@.pill(
                    Mode::Transcribing,
                    LEVEL_DEMO_TRANSCRIBING,
                    "Utterly … transcribing (demo preview)"@,
                )
            }),
            final(self)@ == (if r is Some {
                SessionView { last_demo: Some(now), ..old(self)@ }
            } else {
                old(self)@
            }),
    {
        let demo = match self.demo {
            Some(mode) => mode,
            None => return None,
        };
        if let Some(t) = self.last_demo {
            if elapsed(now, t) < DEMO_MS {
                return None;
            }
        }
        self.last_demo = Some(now);
        Some(
            if demo == Mode::Listening {
                self.push_pill(
                    Mode::Listening,
                    Level { bits: LEVEL_DEMO_LISTENING },
                    "Utterly ● Listening… (demo preview)",
                )
            } else {
                self.push_pill(
                    Mode::Transcribing,
                    Level { bits: LEVEL_DEMO_TRANSCRIBING },
                    "Utterly … transcribing (demo preview)",
                )
            },
        )
    }

    /// How long to sleep between two turns of the loop.
    pub fn tick_interval(&self) -> (ms: u64)
        ensures
            ms == (if self.recording {
                10u64
            } else {
                50u64
            }),
    {
        if self.recording {
            10
        } else {
            50
        }
    }

    // -----------------------------------------------------------------------
    // Capture watchdog
    // -----------------------------------------------------------------------
    /// Takes note of a chunk. Anything but digital silence proves the stream
    /// alive; a live microphone always has a noise floor.
    pub fn note_take(&mut self, level: Level, now: u64)
        requires
            old(self).wf(),
        ensures
            final(self).wf(),
            final(self)@ == old(self)@.noted(level, now),
    {
        self.last_take = now;
        if level.is_zero() {
            if self.silent_takes < u32::MAX {
                self.silent_takes = self.silent_takes + 1;
            }
        } else {
            self.silent_takes = 0;
            self.reopen_wait = REOPEN_MIN_MS;
        }
    }

    /// Whether the stream is stale and may be reopened: it delivers digital
    /// silence or nothing at all, and the last attempt is long enough ago.
    pub fn watchdog_due(&self, now: u64) -> (r: bool)
        ensures
            r == self@.stale(now),
    {
        let settled = elapsed(now, self.opened) >= SETTLED_MS;
        let starved = elapsed(now, self.last_take) >= STARVED_MS && settled;
        let rested = match self.last_reopen {
            Some(t) => elapsed(now, t) >= self.reopen_wait,
            None => true,
        };
        rested && (self.silent_takes >= STALE_TAKES || starved)
    }

    /// The stream was reopened. The next attempt waits twice as long, up to a
    /// minute.
    pub fn reopened(&mut self, now: u64) -> (r: PillUpdate)
        requires
            old(self).wf(),
        ensures
            final(self).wf(),
            final(self)@ == old(self)@.restarted(now),
            r@ == old(self)@.idle("Utterly — mic stream recovered, hold Ctrl+Space to dictate"@),
    {
        self.opened = now;
        self.silent_takes = 0;
        self.last_take = now;
        self.last_reopen = Some(now);
        self.reopen_wait = if self.reopen_wait * 2 <= REOPEN_MAX_MS {
            self.reopen_wait * 2
        } else {
            REOPEN_MAX_MS
        };
        self.push_pill(
            Mode::Idle,
            Level::zero(),
            "Utterly — mic stream recovered, hold Ctrl+Space to dictate",
        )
    }

    /// The stream could not be reopened.
    pub fn reopen_failed(&mut self, now: u64)
        ensures
            final(self)@ == (SessionView { last_reopen: Some(now), ..old(self)@ }),
    {
        self.last_reopen = Some(now);
    }
}

impl SessionView {
    /// After a chunk of a level.
    pub open spec fn noted(self, level: Level, now: u64) -> SessionView {
        if level.bits == LEVEL_ZERO {
            SessionView {
                last_take: now,
                silent_takes: if self.silent_takes < u32::MAX {
                    (self.silent_takes + 1) as u32
                } else {
                    u32::MAX
                },
                ..self
            }
        } else {
            SessionView {
                last_take: now,
                silent_takes: 0,
                reopen_wait: REOPEN_MIN_MS,
                ..self
            }
        }
    }

    /// The stream is stale and may be reopened.
    pub open spec fn stale(self, now: u64) -> bool {
        &&& self.last_reopen matches Some(t) ==> since(now, t) >= self.reopen_wait
        &&& {
            ||| self.silent_takes >= STALE_TAKES
            ||| since(now, self.last_take) >= STARVED_MS && since(now, self.opened) >= SETTLED_MS
        }
    }

    /// After the stream was reopened.
    pub open spec fn restarted(self, now: u64) -> SessionView {
        SessionView {
            opened: now,
            silent_takes: 0,
            last_take: now,
            last_reopen: Some(now),
            reopen_wait: (if self.reopen_wait * 2 <= REOPEN_MAX_MS {
                self.reopen_wait * 2
            } else {
                REOPEN_MAX_MS as int
            }) as u64,
            ..self
        }
    }

    /// A stream that delivers sound is left alone: a chunk that is not digital
    /// silence keeps the watchdog away for as long as chunks may be missing.
    pub proof fn law_live_stream_is_left_alone(self, level: Level, now: u64, later: u64)
        requires
            level.bits != LEVEL_ZERO,
            since(later, now) < STARVED_MS,
        ensures
            !self.noted(level, now).stale(later),
    {
    }

    /// The watchdog does not hammer the device: after a reopen, whatever
    /// silence follows, the next one is at least the new wait away, which is
    /// never shorter than the old one and never longer than a minute.
    pub proof fn law_reopens_back_off(self, now: u64, takes: Seq<u64>, later: u64)
        requires
            self.wf(),
        ensures
            ({
                let after = self.restarted(now).silence(takes);
                &&& after.wf()
                &&& self.reopen_wait <= after.reopen_wait
                &&& after.stale(later) ==> since(later, now) >= after.reopen_wait
            }),
    {
        self.restarted(now).lemma_silence_keeps(takes);
    }

    /// After chunks of digital silence at the given times.
    pub open spec fn silence(self, takes: Seq<u64>) -> SessionView
        decreases takes.len(),
    {
        if takes.len() == 0 {
            self
        } else {
            self.silence(takes.drop_last()).noted(Level { bits: LEVEL_ZERO }, takes.last())
        }
    }

    proof fn lemma_silence_keeps(self, takes: Seq<u64>)
        ensures
            self.silence(takes).last_reopen == self.last_reopen,
            self.silence(takes).reopen_wait == self.reopen_wait,
            self.silence(takes).silent_takes == (if self.silent_takes + takes.len() <= u32::MAX {
                self.silent_takes + takes.len()
            } else {
                u32::MAX as int
            }),
        decreases takes.len(),
    {
        if takes.len() > 0 {
            self.lemma_silence_keeps(takes.drop_last());
        }
    }

    /// A stale-silent stream is noticed: after enough chunks of digital silence
    /// in a row the watchdog acts, as soon as the last reopen is old enough.
    pub proof fn law_digital_silence_is_noticed(self, takes: Seq<u64>, now: u64)
        requires
            takes.len() >= STALE_TAKES,
            self.last_reopen matches Some(t) ==> since(now, t) >= self.reopen_wait,
        ensures
            self.silence(takes).stale(now),
    {
        self.lemma_silence_keeps(takes);
    }
}

// ---------------------------------------------------------------------------
// Menu commands
// ---------------------------------------------------------------------------
/// What follows a menu command: the pill's text, and whether the settings are
/// to be stored and the menu's check marks to be renewed.
pub struct Outcome {
    pub pill: PillUpdate,
    pub save: bool,
    pub sync: bool,
}

pub struct OutcomeView {
    pub pill: PillView,
    pub save: bool,
    pub sync: bool,
}

impl View for Outcome {
    type V = OutcomeView;

    open spec fn view(&self) -> OutcomeView {
        OutcomeView { pill: self.pill@, save: self.save, sync: self.sync }
    }
}

/// What the caller has to do for a menu command.
pub enum MenuStep {
    /// Open the microphone that the settings now name, then report to
    /// `mic_switched`.
    OpenMic,
    /// Move the hotkey to this preset, then report to `hotkey_switched`.
    SwitchHotkey(String),
    /// Read the clipboard, then report to `key_pasted`.
    ReadClipboard,
    /// Nothing but this is left to do.
    Done(Outcome),
    /// End the program.
    Exit,
}

/// How a microphone is called in a title.
pub open spec fn mic_label(mic: Seq<char>) -> Seq<char> {
    if mic.len() == 0 {
        "System default"@
    } else {
        mic
    }
}

/// How a mode is called in a title.
pub open spec fn mode_label(mode: Seq<char>) -> Seq<char> {
    if mode == "verbatim"@ {
        "Verbatim — exact words"@
    } else {
        "Smart — ums/ahs removed, formatted"@
    }
}

impl SessionView {
    /// After a microphone was chosen.
    pub open spec fn with_mic(self, name: Seq<char>) -> SessionView {
        SessionView { cfg: ConfigView { mic: name, ..self.cfg }, ..self }
    }

    /// After the hotkey was moved to a preset.
    pub open spec fn with_hotkey(self, preset: Seq<char>) -> SessionView {
        SessionView { cfg: ConfigView { hotkey: preset, ..self.cfg }, ..self }
    }

    /// After a mode was chosen.
    pub open spec fn with_mode(self, mode: Seq<char>) -> SessionView {
        SessionView {
            cfg: ConfigView { mode: transcribe::mode_for(mode), ..self.cfg },
            ..self
        }
    }

    /// After a key was found in a clipboard text.
    pub open spec fn with_key(self, clip: Seq<char>) -> SessionView {
        SessionView { cfg: ConfigView { api_key: text::trimmed(clip), ..self.cfg }, ..self }
    }

    /// A mode applies to the next utterance: while one runs, choosing another
    /// mode does not change what the pill shows of it, and the next one runs in
    /// the mode that was chosen.
    pub proof fn law_mode_waits_for_the_next_utterance(
        self,
        mode: Seq<char>,
        events: Seq<EventView>,
    )
        ensures
            ({
                let running = self.listening().heard_all(events);
                &&& running.verbatim() == self.verbatim_set()
                &&& running.with_mode(mode).verbatim() == running.verbatim()
                &&& running.with_mode(mode).finished().listening().verbatim() == (
                transcribe::mode_for(mode) == "verbatim"@)
            }),
    {
        self.listening().law_listening_keeps_the_rest(events);
        transcribe::law_mode_is_stable(mode);
    }

    /// Menu and command line offer the same settings: a value chosen in the
    /// menu is stored as it would be from the command line. The menu offers a
    /// hotkey by its preset.
    pub proof fn law_menu_and_command_line_agree(self, v: Seq<char>)
        ensures
            self.with_mic(v).cfg == cli::changed(self.cfg, SettingView::Mic(v)),
            self.with_mode(v).cfg == cli::changed(self.cfg, SettingView::Mode(v)),
            self.with_key(v).cfg == cli::changed(self.cfg, SettingView::Key(v)),
            self.with_hotkey(hotkey::preset_for(v)).cfg == cli::changed(
                self.cfg,
                SettingView::Hotkey(hotkey::preset_for(v)),
            ),
    {
        hotkey::law_preset_is_stable(v);
    }
}

impl Session {
    /// Takes a menu command. The microphone's name is set before the device is
    /// opened; hotkey and key only once that has worked.
    pub fn on_menu(&mut self, cmd: MenuCmd) -> (step: MenuStep)
        ensures
            match cmd@ {
                CmdView::Mic(name) => {
                    &&& step is OpenMic
                    &&& final(self)@ == old(self)@.with_mic(name)
                },
                CmdView::Hotkey(preset) => {
                    &&& step matches MenuStep::SwitchHotkey(p)
                    &&& p@ == preset
                    &&& final(self)@ == old(self)@
                },
                CmdView::Mode(mode) => {
                    &&& step matches MenuStep::Done(o)
                    &&& o@ == (OutcomeView {
                        pill: final(self)@.idle(
                            "Utterly — mode: "@ + mode_label(transcribe::mode_for(mode))
                                + " (next utterance)"@,
                        ),
                        save: true,
                        sync: true,
                    })
                    &&& final(self)@ == old(self)@.with_mode(mode)
                },
                CmdView::PasteKey => step is ReadClipboard && final(self)@ == old(self)@,
                CmdView::Quit => step is Exit && final(self)@ == old(self)@,
            },
    {
        match cmd {
            MenuCmd::Mic(name) => {
                self.cfg.mic = name;
                MenuStep::OpenMic
            },
            MenuCmd::Hotkey(preset) => MenuStep::SwitchHotkey(preset),
            MenuCmd::Mode(mode) => {
                let mode = transcribe::normalize_mode(mode.as_str());
                self.cfg.mode = mode.to_string();
                let what = if text::same(mode, "verbatim") {
                    "Verbatim — exact words"
                } else {
                    "Smart — ums/ahs removed, formatted"
                };
                let mut title = "Utterly — mode: ".to_string();
                title.append(what);
                title.append(" (next utterance)");
                let pill = self.push_pill(Mode::Idle, Level::zero(), title.as_str());
                MenuStep::Done(Outcome { pill, save: true, sync: true })
            },
            MenuCmd::PasteKey => MenuStep::ReadClipboard,
            MenuCmd::Quit => MenuStep::Exit,
        }
    }

    /// The microphone that the settings name was opened, or was not.
    pub fn mic_switched(&self, opened: Result<(), String>) -> (o: Outcome)
        ensures
            o@ == (match opened {
                Ok(_) => OutcomeView {
                    pill: self@.idle("Utterly — mic: "@ + mic_label(self@.cfg.mic)),
                    save: true,
                    sync: true,
                },
                Err(e) => OutcomeView {
                    pill: self@.idle("Utterly — mic error: "@ + e@),
                    save: false,
                    sync: false,
                },
            }),
    {
        match opened {
            Ok(_) => {
                let shown = if self.cfg.mic.as_str().is_empty() {
                    "System default"
                } else {
                    self.cfg.mic.as_str()
                };
                Outcome { pill: self.say("Utterly — mic: ", shown), save: true, sync: true }
            },
            Err(e) => Outcome { pill: self.mic_failed(e.as_str()), save: false, sync: false },
        }
    }

    /// The hotkey was moved to a preset, or was not.
    pub fn hotkey_switched(&mut self, preset: String, moved: Result<(), String>) -> (o: Outcome)
        ensures
            match moved {
                Ok(_) => {
                    &&& o@ == (OutcomeView {
                        pill: old(self)@.idle(
                            "Utterly — hold "@ + preset@ + " to dictate ("@ + old(self)@.cfg.mode
                                + ")"@,
                        ),
                        save: true,
                        sync: true,
                    })
                    &&& final(self)@ == old(self)@.with_hotkey(preset@)
                },
                Err(e) => {
                    &&& o@ == (OutcomeView {
                        pill: old(self)@.idle("Utterly — hotkey error: "@ + e@),
                        save: false,
                        sync: false,
                    })
                    &&& final(self)@ == old(self)@
                },
            },
    {
        match moved {
            Ok(_) => {
                let mut title = "Utterly — hold ".to_string();
                title.append(preset.as_str());
                title.append(" to dictate (");
                title.append(self.cfg.mode.as_str());
                title.append(")");
                self.cfg.hotkey = preset;
                let pill = self.push_pill(Mode::Idle, Level::zero(), title.as_str());
                Outcome { pill, save: true, sync: true }
            },
            Err(e) => Outcome { pill: self.hotkey_failed(e.as_str()), save: false, sync: false },
        }
    }

    /// The clipboard was read; it held this text, or none. A key in it is
    /// taken over, trimmed.
    pub fn key_pasted(&mut self, clip: Option<String>) -> (o: Outcome)
        ensures
            final(self)@ == old(self)@.after_paste(transcribe::opt_view(clip)),
            ({
                let found = clip matches Some(c) && output::key_shaped(c@);
                &&& found ==> o@ == (OutcomeView {
                    pill: old(self)@.idle("Utterly — API key saved, hold Ctrl+Space to dictate"@),
                    save: true,
                    sync: false,
                })
                &&& found ==> final(self)@ == old(self)@.with_key(clip->0@)
                &&& found ==> final(self).cfg.api_key@ == text::trimmed(clip->0@)
                &&& !found ==> final(self).cfg.api_key == old(self).cfg.api_key
                &&& final(self).cfg.mic == old(self).cfg.mic
                &&& final(self).cfg.hotkey == old(self).cfg.hotkey
                &&& final(self).cfg.mode == old(self).cfg.mode
                &&& !found ==> o@ == (OutcomeView {
                    pill: old(self)@.idle(
                        "Utterly — clipboard has no key (copy it from AI Studio first)"@,
                    ),
                    save: false,
                    sync: false,
                })
                &&& !found ==> final(self)@ == old(self)@
            }),
    {
        let key = match clip {
            Some(c) => output::key_from_text(c.as_str()),
            None => None,
        };
        match key {
            Some(k) => {
                self.cfg.api_key = k;
                let pill = self.push_pill(
                    Mode::Idle,
                    Level::zero(),
                    "Utterly — API key saved, hold Ctrl+Space to dictate",
                );
                Outcome { pill, save: true, sync: false }
            },
            None => {
                let pill = self.push_pill(
                    Mode::Idle,
                    Level::zero(),
                    "Utterly — clipboard has no key (copy it from AI Studio first)",
                );
                Outcome { pill, save: false, sync: false }
            },
        }
    }
}

// ---------------------------------------------------------------------------
// Press and release
// ---------------------------------------------------------------------------
/// What the caller has to do when the hotkey goes down or up.
pub enum KeyStep {
    Ignore,
    /// An utterance begins: go through a `Press`.
    Connect,
    /// The utterance ends: show this, then go through a `Release`.
    Finish(PillUpdate),
}

/// What the server answered to the setup.
pub enum SetupReply {
    Accepted,
    /// Something else: the start of it.
    Unexpected(String),
    /// Nothing in time. The session goes on.
    Silent,
}

/// What an answer says.
pub enum SetupReplyView {
    Accepted,
    Unexpected(Seq<char>),
    Silent,
}

impl View for SetupReply {
    type V = SetupReplyView;

    open spec fn view(&self) -> SetupReplyView {
        match self {
            SetupReply::Accepted => SetupReplyView::Accepted,
            SetupReply::Unexpected(short) => SetupReplyView::Unexpected(short@),
            SetupReply::Silent => SetupReplyView::Silent,
        }
    }
}

/// What a reply to the setup means.
pub open spec fn setup_reply_of(reply: Option<Seq<char>>) -> SetupReplyView {
    match reply {
        Some(raw) => if text::contains(raw, "setupComplete"@) {
            SetupReplyView::Accepted
        } else {
            SetupReplyView::Unexpected(text::clipped(raw, 300))
        },
        None => SetupReplyView::Silent,
    }
}

/// Reads the server's answer to the setup.
pub fn classify_setup_response(reply: Option<&str>) -> (r: SetupReply)
    ensures
        r@ == setup_reply_of(transcribe::opt_str_view(reply)),
{
    match reply {
        Some(raw) => if text::has(raw, "setupComplete") {
            SetupReply::Accepted
        } else {
            SetupReply::Unexpected(text::clip(raw, 300))
        },
        None => SetupReply::Silent,
    }
}

/// The start of a preview, in quotes; nothing of an empty one.
pub open spec fn quoted_start(s: Seq<char>) -> Seq<char> {
    if s.len() == 0 {
        Seq::empty()
    } else {
        "“"@ + text::clipped(s, 60) + "”"@
    }
}

pub fn interim_short(s: &str) -> (r: String)
    ensures
        r@ == quoted_start(s@),
{
    if s.is_empty() {
        String::new()
    } else {
        let mut r = "“".to_string();
        r.append(text::clip(s, 60).as_str());
        r.append("”");
        r
    }
}

/// What the variable that asks for a demo says.
pub fn demo_mode(value: Option<&str>) -> (r: Option<Mode>)
    ensures
        r == (match value {
            Some(v) => if v@ == "listening"@ {
                Some(Mode::Listening)
            } else if v@ == "transcribing"@ {
                Some(Mode::Transcribing)
            } else {
                None
            },
            None => None,
        }),
{
    match value {
        Some(v) => if text::same(v, "listening") {
            Some(Mode::Listening)
        } else if text::same(v, "transcribing") {
            Some(Mode::Transcribing)
        } else {
            None
        },
        None => None,
    }
}

/// The end of an utterance: the text to paste, if there is any, and the pill.
pub struct Finish {
    pub commit: Option<String>,
    pub pill: PillUpdate,
}

impl Session {
    /// A click on the pill's microphone acts as the hotkey would: down when
    /// nothing is recorded, up when something is. Hiding the pill leaves the
    /// session alone.
    pub fn on_ui(&self, cmd: UiCmd) -> (r: Option<KeyEvent>)
        ensures
            r == (match cmd {
                UiCmd::MicToggle => Some(
                    if self.recording {
                        KeyEvent::Released
                    } else {
                        KeyEvent::Pressed
                    },
                ),
                UiCmd::Hide => None,
            }),
    {
        match cmd {
            UiCmd::MicToggle => Some(
                if self.recording {
                    KeyEvent::Released
                } else {
                    KeyEvent::Pressed
                },
            ),
            UiCmd::Hide => None,
        }
    }

    /// The hotkey went down or up. A press counts when nothing is recorded and
    /// there is a key, a release when something is recorded.
    pub fn on_key(&mut self, ev: KeyEvent) -> (step: KeyStep)
        ensures
            final(self)@ == old(self)@.after_key(ev),
            step is Connect <==> old(self)@.starts(ev),
            step is Finish <==> old(self)@.ends(ev),
            match ev {
                KeyEvent::Pressed => {
                    &&& step is Connect <==> !old(self).recording && !old(self)@.keyless()
                    &&& step is Ignore <==> old(self).recording || old(self)@.keyless()
                    &&& final(self)@ == old(self)@
                },
                KeyEvent::Released => if old(self).recording {
                    &&& step matches KeyStep::Finish(u)
                    &&& u@ == old(self)@.pill(
                        Mode::Transcribing,
                        LEVEL_ZERO,
                        "Utterly … transcribing "@ + quoted_start(old(self)@.interim),
                    )
                    &&& final(self)@ == (SessionView { recording: false, ..old(self)@ })
                } else {
                    step is Ignore && final(self)@ == old(self)@
                },
            },
    {
        match ev {
            KeyEvent::Pressed => if self.recording || text::is_blank(self.cfg.api_key.as_str()) {
                KeyStep::Ignore
            } else {
                KeyStep::Connect
            },
            KeyEvent::Released => if self.recording {
                self.recording = false;
                let mut title = "Utterly … transcribing ".to_string();
                title.append(interim_short(self.interim.as_str()).as_str());
                KeyStep::Finish(
                    self.push_pill(Mode::Transcribing, Level::zero(), title.as_str()),
                )
            } else {
                KeyStep::Ignore
            },
        }
    }

    /// The connection stands, or does not. A new utterance starts with no text.
    pub fn connected(&mut self, result: Result<(), String>) -> (r: PillUpdate)
        ensures
            match result {
                Ok(_) => {
                    &&& final(self)@ == old(self)@.listening()
                    &&& r@ == final(self)@.pill(
                        Mode::Listening,
                        LEVEL_ZERO,
                        "Utterly ● Listening… (release Ctrl+Space to transcribe)"@,
                    )
                },
                Err(e) => {
                    &&& final(self)@ == old(self)@
                    &&& r@ == old(self)@.idle("Utterly — connect failed: "@ + e@)
                },
            },
    {
        match result {
            Ok(_) => {
                self.recording = true;
                self.live = Some(self.is_verbatim_set());
                self.finals = Vec::new();
                self.interim = String::new();
                assert(self@.finals =~= Seq::empty());
                self.push_pill(
                    Mode::Listening,
                    Level::zero(),
                    "Utterly ● Listening… (release Ctrl+Space to transcribe)",
                )
            },
            Err(e) => self.say("Utterly — connect failed: ", e.as_str()),
        }
    }

    /// Takes what the server said into the transcript; tells whether it said
    /// anything.
    pub fn hear(&mut self, ev: TranscriptEvent) -> (updated: bool)
        ensures
            final(self)@ == old(self)@.heard(ev@),
            updated == ev@.speaks(),
            updated == (ev.interim is Some || ev.finalized is Some),
            ev.finalized matches Some(t) ==> {
                &&& final(self).finals@.len() == old(self).finals@.len() + 1
                &&& final(self).finals@.last()@ == t@
            },
            ev.finalized is None ==> final(self).finals == old(self).finals,
            ev.interim matches Some(t) ==> final(self).interim@ == t@,
            ev.interim is None ==> final(self).interim == old(self).interim,
    {
        let mut updated = false;
        if let Some(t) = ev.interim {
            self.interim = t;
            updated = true;
        }
        if let Some(t) = ev.finalized {
            self.finals.push(t);
            updated = true;
        }
        assert(self@.finals =~= old(self)@.heard(ev@).finals);
        updated
    }

    /// The text so far.
    fn transcript(&self) -> (r: String)
        ensures
            r@ == self@.transcript(),
    {
        if self.finals.len() == 0 {
            self.interim.as_str().to_string()
        } else {
            text::join_spaced(&self.finals)
        }
    }

    /// The utterance is over: the final texts, or the preview where none came,
    /// is pasted unless it is blank.
    pub fn finish(&mut self) -> (r: Finish)
        ensures
            ({
                let said = text::trimmed(old(self)@.transcript());
                &&& r.commit is Some <==> said.len() > 0
                &&& r.commit matches Some(t) ==> t@ == said
                &&& transcribe::opt_view(r.commit) == old(self)@.committed()
                &&& r.pill@ == (if said.len() > 0 {
                    final(self)@.idle("Utterly — "@ + text::clipped(said, 80))
                } else {
                    final(self)@.idle("Utterly — heard nothing, try again"@)
                })
                &&& final(self)@ == old(self)@.finished()
            }),
    {
        let said = text::trim(self.transcript().as_str());
        self.interim = String::new();
        self.live = None;
        if said.as_str().is_empty() {
            let pill = self.push_pill(
                Mode::Idle,
                Level::zero(),
                "Utterly — heard nothing, try again",
            );
            Finish { commit: None, pill }
        } else {
            let shown = text::clip(said.as_str(), 80);
            let pill = self.say("Utterly — ", shown.as_str());
            Finish { commit: Some(said), pill }
        }
    }
}

impl SessionView {
    /// The hotkey starts an utterance.
    pub open spec fn starts(self, ev: KeyEvent) -> bool {
        ev == KeyEvent::Pressed && !self.recording && !self.keyless()
    }

    /// The hotkey ends the utterance.
    pub open spec fn ends(self, ev: KeyEvent) -> bool {
        ev == KeyEvent::Released && self.recording
    }

    /// After the hotkey went down or up.
    pub open spec fn after_key(self, ev: KeyEvent) -> SessionView {
        if self.ends(ev) {
            SessionView { recording: false, ..self }
        } else {
            self
        }
    }

    /// After the clipboard was read for a key.
    pub open spec fn after_paste(self, clip: Option<Seq<char>>) -> SessionView {
        match clip {
            Some(c) => if output::key_shaped(c) {
                self.with_key(c)
            } else {
                self
            },
            None => self,
        }
    }

    /// After a read while recording.
    pub open spec fn during_stream(self, read: Option<EventView>) -> SessionView {
        match read {
            Some(ev) => self.heard(ev),
            None => self,
        }
    }

    /// After several reads while recording.
    pub open spec fn streamed(self, reads: Seq<Option<EventView>>) -> SessionView
        decreases reads.len(),
    {
        if reads.len() == 0 {
            self
        } else {
            self.streamed(reads.drop_last()).during_stream(reads.last())
        }
    }

    /// After the idle meter was fed, or could not be.
    pub open spec fn idled(self, taken: Option<Level>, now: u64) -> SessionView {
        let noted = match taken {
            Some(level) => self.noted(level, now),
            None => self,
        };
        let moved = taken matches Some(level) && level.bits > LEVEL_METER;
        if moved || since(now, self.last_idle) >= IDLE_REST_MS {
            SessionView { last_idle: now, ..noted }
        } else {
            noted
        }
    }
}

impl EventView {
    /// It carries a text.
    pub open spec fn speaks(self) -> bool {
        self.interim is Some || self.finalized is Some
    }
}

impl SessionView {
    /// After a connection: an utterance without any text yet.
    pub open spec fn listening(self) -> SessionView {
        SessionView {
            recording: true,
            live: Some(self.verbatim_set()),
            finals: Seq::empty(),
            interim: Seq::empty(),
            ..self
        }
    }

    /// What the utterance leaves to be pasted: its text without whitespace
    /// around it, unless nothing is left.
    pub open spec fn committed(self) -> Option<Seq<char>> {
        let said = text::trimmed(self.transcript());
        if said.len() > 0 {
            Some(said)
        } else {
            None
        }
    }

    /// After the end of an utterance.
    pub open spec fn finished(self) -> SessionView {
        SessionView { interim: Seq::empty(), live: None, ..self }
    }

    /// After the server said something: a preview replaces the one before, a
    /// final text is added.
    pub open spec fn heard(self, ev: EventView) -> SessionView {
        SessionView {
            interim: match ev.interim {
                Some(t) => t,
                None => self.interim,
            },
            finals: match ev.finalized {
                Some(t) => self.finals.push(t),
                None => self.finals,
            },
            ..self
        }
    }

    /// After the server said several things.
    pub open spec fn heard_all(self, events: Seq<EventView>) -> SessionView
        decreases events.len(),
    {
        if events.len() == 0 {
            self
        } else {
            self.heard_all(events.drop_last()).heard(events.last())
        }
    }

    /// The text of an utterance is what the server said during it, and nothing
    /// else: its final texts in order, or its last preview where there is none.
    /// What was said before the press has no part in it.
    pub proof fn law_utterance_is_what_was_said(self, events: Seq<EventView>)
        ensures
            ({
                let after = self.listening().heard_all(events);
                &&& after.finals == final_texts(events)
                &&& after.interim == last_preview(events)
                &&& after.transcript() == (if final_texts(events).len() == 0 {
                    last_preview(events)
                } else {
                    text::spaced(final_texts(events))
                })
            }),
        decreases events.len(),
    {
        if events.len() > 0 {
            self.law_utterance_is_what_was_said(events.drop_last());
        }
    }

    /// Listening touches the transcript only: settings, watchdog and timers
    /// stay as they were.
    pub proof fn law_listening_keeps_the_rest(self, events: Seq<EventView>)
        ensures
            self.heard_all(events) == (SessionView {
                finals: self.heard_all(events).finals,
                interim: self.heard_all(events).interim,
                ..self
            }),
        decreases events.len(),
    {
        if events.len() > 0 {
            self.law_listening_keeps_the_rest(events.drop_last());
        }
    }
}

/// The final texts among what the server said, in order.
pub open spec fn final_texts(events: Seq<EventView>) -> Seq<Seq<char>>
    decreases events.len(),
{
    if events.len() == 0 {
        Seq::empty()
    } else {
        match events.last().finalized {
            Some(t) => final_texts(events.drop_last()).push(t),
            None => final_texts(events.drop_last()),
        }
    }
}

/// The last preview among what the server said.
pub open spec fn last_preview(events: Seq<EventView>) -> Seq<char>
    decreases events.len(),
{
    if events.len() == 0 {
        Seq::empty()
    } else {
        match events.last().interim {
            Some(t) => t,
            None => last_preview(events.drop_last()),
        }
    }
}

// ---------------------------------------------------------------------------
// Streaming
// ---------------------------------------------------------------------------
/// The chunks of one turn of the recording loop: few enough that the turn
/// stays short.
pub struct Burst {
    /// The level of the last chunk.
    pub level: Level,
    /// How many chunks were sent.
    pub sent: u32,
    /// The server went away.
    pub broken: bool,
}

impl Burst {
    pub open spec fn wf(&self) -> bool {
        self.sent <= BURST
    }

    pub fn new() -> (r: Burst)
        ensures
            r.wf(),
            r == (Burst { level: (Level { bits: LEVEL_ZERO }), sent: 0, broken: false }),
    {
        Burst { level: Level::zero(), sent: 0, broken: false }
    }

    /// Another chunk may be taken.
    pub open spec fn open(&self) -> bool {
        !self.broken && self.sent < BURST
    }

    pub fn wants_more(&self) -> (r: bool)
        ensures
            r == self.open(),
    {
        !self.broken && self.sent < BURST
    }

    /// A chunk was sent, or the sending failed.
    pub fn delivered(&mut self, ok: bool)
        requires
            old(self).open(),
        ensures
            final(self).wf(),
            *final(self) == (if ok {
                Burst { sent: (old(self).sent + 1) as u32, ..*old(self) }
            } else {
                Burst { broken: true, ..*old(self) }
            }),
    {
        if ok {
            self.sent = self.sent + 1;
        } else {
            self.broken = true;
        }
    }
}

/// The reads of one turn of the recording loop.
pub struct Poll {
    pub reads: u32,
    /// Something was said.
    pub updated: bool,
    /// Nothing more is to be read in this turn.
    pub over: bool,
}

impl Poll {
    pub open spec fn wf(&self) -> bool {
        self.reads <= POLL_READS
    }

    pub fn new() -> (r: Poll)
        ensures
            r.wf(),
            r == (Poll { reads: 0, updated: false, over: false }),
    {
        Poll { reads: 0, updated: false, over: false }
    }

    /// Another read may follow.
    pub open spec fn open(&self) -> bool {
        !self.over && self.reads < POLL_READS
    }

    pub fn wants_more(&self) -> (r: bool)
        ensures
            r == self.open(),
    {
        !self.over && self.reads < POLL_READS
    }
}

impl Session {
    /// A chunk was taken while a connection stands; it is sent unless it is
    /// too quiet. Users pay by the minute, silence is not worth it.
    pub fn on_chunk(&mut self, level: Level, now: u64) -> (send: bool)
        requires
            old(self).wf(),
        ensures
            final(self).wf(),
            final(self)@ == old(self)@.noted(level, now),
            send == (level.bits >= LEVEL_SILENCE),
    {
        self.note_take(level, now);
        level.is_audible()
    }

    /// A chunk was taken in a turn of the recording loop. It comes back, as it
    /// is, where it is to be sent: while recording, unless it is too quiet.
    pub fn stream_chunk(
        &mut self,
        burst: &mut Burst,
        chunk: [i16; CHUNK],
        level: Level,
        now: u64,
    ) -> (send: Option<[i16; CHUNK]>)
        requires
            old(self).wf(),
        ensures
            final(self).wf(),
            final(self)@ == old(self)@.noted(level, now),
            *final(burst) == (Burst { level, ..*old(burst) }),
            send == (if old(self).recording && level.bits >= LEVEL_SILENCE {
                Some(chunk)
            } else {
                None
            }),
    {
        burst.level = level;
        if self.on_chunk(level, now) && self.recording {
            Some(chunk)
        } else {
            None
        }
    }

    /// A read in a turn of the recording loop gave this, or nothing in time.
    pub fn stream_read(&mut self, poll: &mut Poll, read: Option<TranscriptEvent>)
        requires
            old(poll).open(),
        ensures
            final(poll).wf(),
            final(poll).reads == old(poll).reads + 1,
            final(self)@ == old(self)@.during_stream(
                match read {
                    Some(ev) => Some(ev@),
                    None => None,
                },
            ),
            match read {
                Some(ev) => {
                    &&& final(self)@ == old(self)@.heard(ev@)
                    &&& final(poll).updated == (old(poll).updated || ev@.speaks())
                    &&& final(poll).over == ev@.closed
                    &&& ev.finalized matches Some(t) ==> {
                        &&& final(self).finals@.len() == old(self).finals@.len() + 1
                        &&& final(self).finals@.last()@ == t@
                    }
                    &&& ev.finalized is None ==> final(self).finals == old(self).finals
                    &&& ev.interim matches Some(t) ==> final(self).interim@ == t@
                    &&& ev.interim is None ==> final(self).interim == old(self).interim
                    &&& final(poll).over == ev.closed
                    &&& ev.finalized is Some || ev.interim is Some ==> final(poll).updated
                },
                None => {
                    &&& final(self)@ == old(self)@
                    &&& final(poll).updated == old(poll).updated
                    &&& final(poll).over
                },
            },
    {
        poll.reads = poll.reads + 1;
        match read {
            Some(ev) => {
                poll.over = ev.closed;
                if self.hear(ev) {
                    poll.updated = true;
                }
            },
            None => {
                poll.over = true;
            },
        }
    }

    /// The pill after a turn of the recording loop, where there is anything to
    /// show.
    pub fn stream_pill(&self, poll: &Poll, burst: &Burst) -> (r: Option<PillUpdate>)
        ensures
            r is Some <==> poll.updated || burst.level.bits != LEVEL_ZERO,
            r matches Some(u) ==> u@ == self@.pill(
                Mode::Listening,
                burst.level.bits,
                "Utterly ● "@ + text::clipped(self@.transcript(), 80),
            ),
    {
        if poll.updated || !burst.level.is_zero() {
            let mut title = "Utterly ● ".to_string();
            title.append(text::clip(self.transcript().as_str(), 80).as_str());
            Some(self.push_pill(Mode::Listening, burst.level, title.as_str()))
        } else {
            None
        }
    }

    /// Whether the idle meter is due to be fed.
    pub fn idle_due(&self, now: u64) -> (r: bool)
        ensures
            r == (since(now, self.last_idle) >= IDLE_PUSH_MS),
    {
        elapsed(now, self.last_idle) >= IDLE_PUSH_MS
    }

    /// Feeds the idle meter with a chunk, or with none where there was none, so
    /// that the choice of the microphone can be seen to work.
    pub fn idle_tick(&mut self, taken: Option<Level>, now: u64) -> (r: Option<PillUpdate>)
        requires
            old(self).wf(),
        ensures
            final(self).wf(),
            final(self)@ == old(self)@.idled(taken, now),
            r is Some <==> (taken matches Some(level) && level.bits > LEVEL_METER),
            r matches Some(u) ==> u@ == old(self)@.pill(
                Mode::Idle,
                taken->0.bits,
                "Utterly — hold Ctrl+Space to dictate"@,
            ),
            ({
                let noted = match taken {
                    Some(level) => old(self)@.noted(level, now),
                    None => old(self)@,
                };
                final(self)@ == (if r is Some || since(now, old(self).last_idle) >= IDLE_REST_MS {
                    SessionView { last_idle: now, ..noted }
                } else {
                    noted
                })
            }),
    {
        if let Some(level) = taken {
            self.note_take(level, now);
            if level.moves_meter() {
                self.last_idle = now;
                return Some(
                    self.push_pill(Mode::Idle, level, "Utterly — hold Ctrl+Space to dictate"),
                );
            }
        }
        if elapsed(now, self.last_idle) >= IDLE_REST_MS {
            self.last_idle = now;
        }
        None
    }
}

// ---------------------------------------------------------------------------
// Grace period
// ---------------------------------------------------------------------------
/// Whether the wait after a release ends: at the hard cap, when the server
/// closed, or once it has been quiet for a while after a final text. `quiet`
/// is the time since the server last spoke, where a final text has come.
pub fn should_stop_grace(waited: u64, closed: bool, quiet: Option<u64>) -> (r: bool)
    ensures
        r == (waited >= GRACE_CAP_MS || closed || (quiet matches Some(q) && q >= GRACE_QUIET_MS)),
{
    if waited >= GRACE_CAP_MS || closed {
        return true;
    }
    match quiet {
        Some(q) => q >= GRACE_QUIET_MS,
        None => false,
    }
}

/// The wait for final texts, which come after the end of the turn.
#[derive(Debug, Clone, Copy)]
pub struct Grace {
    pub started: u64,
    pub closed: bool,
    /// When the server last spoke, once a final text has come.
    pub spoke: Option<u64>,
}

impl Grace {
    pub fn new(now: u64) -> (r: Grace)
        ensures
            r == (Grace { started: now, closed: false, spoke: None }),
    {
        Grace { started: now, closed: false, spoke: None }
    }

    /// After the server said something.
    pub open spec fn after(self, ev: EventView, now: u64) -> Grace {
        Grace {
            closed: self.closed || ev.closed,
            spoke: if ev.finalized is Some || (self.spoke is Some && ev.interim is Some) {
                Some(now)
            } else {
                self.spoke
            },
            ..self
        }
    }

    /// Takes note of what the server said.
    pub fn note(&mut self, ev: &TranscriptEvent, now: u64)
        ensures
            *final(self) == old(self).after(ev@, now),
    {
        if ev.closed {
            self.closed = true;
        }
        if ev.finalized.is_some() || (self.spoke.is_some() && ev.interim.is_some()) {
            self.spoke = Some(now);
        }
    }

    /// The wait is over.
    pub open spec fn over(self, now: u64) -> bool {
        ||| since(now, self.started) >= GRACE_CAP_MS
        ||| self.closed
        ||| (self.spoke matches Some(t) && since(now, t) >= GRACE_QUIET_MS)
    }

    pub fn done(&self, now: u64) -> (r: bool)
        ensures
            r == self.over(now),
    {
        let quiet = match self.spoke {
            Some(t) => Some(elapsed(now, t)),
            None => None,
        };
        should_stop_grace(elapsed(now, self.started), self.closed, quiet)
    }

    /// After the server said several things, each at its time.
    pub open spec fn after_all(self, events: Seq<(EventView, u64)>) -> Grace
        decreases events.len(),
    {
        if events.len() == 0 {
            self
        } else {
            self.after_all(events.drop_last()).after(events.last().0, events.last().1)
        }
    }

    /// The cap is hard: whatever the server says, the wait ends by then.
    pub proof fn law_grace_is_capped(self, events: Seq<(EventView, u64)>, now: u64)
        requires
            since(now, self.started) >= GRACE_CAP_MS,
        ensures
            self.after_all(events).over(now),
    {
        self.lemma_keeps_start(events);
    }

    proof fn lemma_keeps_start(self, events: Seq<(EventView, u64)>)
        ensures
            self.after_all(events).started == self.started,
        decreases events.len(),
    {
        if events.len() > 0 {
            self.lemma_keeps_start(events.drop_last());
        }
    }

    /// Nothing is cut off early: before the cap, while the server neither
    /// closes nor sends a final text, the wait goes on.
    pub proof fn law_grace_waits_for_a_final(
        started: u64,
        events: Seq<(EventView, u64)>,
        now: u64,
    )
        requires
            since(now, started) < GRACE_CAP_MS,
            forall|i: int|
                0 <= i < events.len() ==> !(#[trigger] events[i]).0.closed
                    && events[i].0.finalized is None,
        ensures
            !(Grace { started, closed: false, spoke: None }).after_all(events).over(now),
    {
        let start = Grace { started, closed: false, spoke: None };
        start.lemma_keeps_start(events);
        start.lemma_quiet_start(events);
    }

    proof fn lemma_quiet_start(self, events: Seq<(EventView, u64)>)
        requires
            !self.closed,
            self.spoke is None,
            forall|i: int|
                0 <= i < events.len() ==> !(#[trigger] events[i]).0.closed
                    && events[i].0.finalized is None,
        ensures
            !self.after_all(events).closed,
            self.after_all(events).spoke is None,
        decreases events.len(),
    {
        if events.len() > 0 {
            let rest = events.drop_last();
            assert forall|i: int| 0 <= i < rest.len() implies !(#[trigger] rest[i]).0.closed
                && rest[i].0.finalized is None by {
                assert(rest[i] == events[i]);
            }
            self.lemma_quiet_start(rest);
        }
    }

    /// After a final text, a server that stays quiet for long enough ends the
    /// wait before the cap.
    pub proof fn law_quiet_ends_the_grace(self, ev: EventView, at: u64, now: u64)
        requires
            ev.finalized is Some,
            since(now, at) >= GRACE_QUIET_MS,
        ensures
            self.after(ev, at).over(now),
    {
    }

    /// A close of the server ends the wait at once.
    pub proof fn law_close_ends_the_grace(self, ev: EventView, at: u64, now: u64)
        requires
            ev.closed,
        ensures
            self.after(ev, at).over(now),
    {
    }
}

// ---------------------------------------------------------------------------
// What the session promises
// ---------------------------------------------------------------------------
impl Session {
    /// The state says what its fields hold, each as it is.
    pub proof fn law_state_says_what_it_holds(self, i: int)
        ensures
            self@.cfg.mic == self.cfg.mic@,
            self@.cfg.hotkey == self.cfg.hotkey@,
            self@.cfg.api_key == self.cfg.api_key@,
            self@.cfg.mode == self.cfg.mode@,
            self@.cfg.language_codes.len() == self.cfg.language_codes@.len(),
            0 <= i < self.cfg.language_codes@.len() ==> self@.cfg.language_codes[i]
                == self.cfg.language_codes@[i]@,
            self@.finals.len() == self.finals@.len(),
            0 <= i < self.finals@.len() ==> self@.finals[i] == self.finals@[i]@,
            self@.interim == self.interim@,
            self@.recording == self.recording,
            self@.live == self.live,
            self@.silent_takes == self.silent_takes,
            self@.last_take == self.last_take,
            self@.opened == self.opened,
            self@.last_reopen == self.last_reopen,
            self@.reopen_wait == self.reopen_wait,
            self@.last_touch == self.last_touch,
            self@.last_idle == self.last_idle,
            self@.demo == self.demo,
            self@.last_demo == self.last_demo,
    {
    }

    /// The demo is shown at once, and then every two seconds; without one
    /// nothing is.
    pub proof fn law_demo_repeats(self, now: u64)
        ensures
            self.demo is None ==> !self.demo_due(now),
            self.demo is Some && self.last_demo is None ==> self.demo_due(now),
            self.demo is Some ==> (self.last_demo matches Some(t) ==> (self.demo_due(now) <==> now
                >= t + 2_000)),
    {
    }
}

impl SessionView {
    /// What the server says is taken over as it is: a final text is added
    /// behind those before it, a preview takes the place of the last one, and
    /// whether the server closes with it makes no difference.
    pub proof fn law_what_is_said_is_kept(self, ev: EventView, closed: bool)
        ensures
            ev.finalized matches Some(t) ==> self.heard(ev).finals == self.finals + seq![t],
            ev.finalized is None ==> self.heard(ev).finals == self.finals,
            ev.interim matches Some(t) ==> self.heard(ev).interim == t,
            ev.interim is None ==> self.heard(ev).interim == self.interim,
            self.heard(EventView { closed, ..ev }) == self.heard(ev),
            self.heard(ev) == (SessionView {
                finals: self.heard(ev).finals,
                interim: self.heard(ev).interim,
                ..self
            }),
    {
        assert(ev.finalized matches Some(t) ==> self.finals.push(t) =~= self.finals + seq![t]);
    }

    /// Of everything that the server says, each final text is kept, once and in
    /// order, behind those that were there.
    pub proof fn law_no_final_text_is_lost(self, events: Seq<EventView>)
        ensures
            self.heard_all(events).finals == self.finals + events.filter(
                |e: EventView| e.finalized is Some,
            ).map_values(|e: EventView| e.finalized->0),
            final_texts(events) == events.filter(
                |e: EventView| e.finalized is Some,
            ).map_values(|e: EventView| e.finalized->0),
        decreases events.len(),
    {
        reveal(Seq::filter);
        let has = |e: EventView| e.finalized is Some;
        let get = |e: EventView| e.finalized->0;
        if events.len() == 0 {
            assert(events.filter(has).map_values(get) =~= Seq::empty());
            assert(self.finals + events.filter(has).map_values(get) =~= self.finals);
        } else {
            let front = events.drop_last();
            self.law_no_final_text_is_lost(front);
            if events.last().finalized is Some {
                assert(events.filter(has) == front.filter(has).push(events.last()));
                assert(front.filter(has).push(events.last()).map_values(get) =~= front.filter(
                    has,
                ).map_values(get).push(events.last().finalized->0));
            }
            assert(self.heard_all(events).finals =~= self.finals + events.filter(has).map_values(
                get,
            ));
        }
    }

    /// The preview is the last one that the server sent; where it sent none, it
    /// is the one from before.
    pub proof fn law_last_preview_stands(self, events: Seq<EventView>, i: int)
        requires
            -1 <= i < events.len(),
            i >= 0 ==> events[i].interim is Some,
            forall|k: int| i < k < events.len() ==> (#[trigger] events[k]).interim is None,
        ensures
            i >= 0 ==> self.heard_all(events).interim == events[i].interim->0,
            i >= 0 ==> last_preview(events) == events[i].interim->0,
            i < 0 ==> self.heard_all(events).interim == self.interim,
            i < 0 ==> last_preview(events) == Seq::<char>::empty(),
        decreases events.len(),
    {
        if events.len() > 0 && i < events.len() - 1 {
            let front = events.drop_last();
            assert(events[events.len() - 1].interim is None);
            assert forall|k: int| i < k < front.len() implies (#[trigger] front[k]).interim
                is None by {
                assert(front[k] == events[k]);
            }
            self.law_last_preview_stands(front, i);
        }
    }

    /// The text of an utterance grows with every final text, behind a space; a
    /// preview stands for it only until the first final text, and an utterance
    /// that has just begun has none.
    pub proof fn law_transcript_grows(self, t: Seq<char>, closed: bool)
        ensures
            ({
                let a_final = EventView { interim: None, finalized: Some(t), closed };
                let a_preview = EventView { interim: Some(t), finalized: None, closed };
                &&& self.finals.len() == 0 ==> self.heard(a_final).transcript() == t
                &&& self.finals.len() > 0 ==> self.heard(a_final).transcript()
                    == self.transcript() + seq![' '] + t
                &&& self.finals.len() == 0 ==> self.heard(a_preview).transcript() == t
                &&& self.finals.len() > 0 ==> self.heard(a_preview).transcript()
                    == self.transcript()
                &&& self.listening().transcript() == Seq::<char>::empty()
            }),
    {
        let a_final = EventView { interim: None, finalized: Some(t), closed };
        let grown = self.heard(a_final).finals;
        text::law_join_composes(self.finals, seq![t], t);
        assert(grown =~= self.finals + seq![t]);
        if self.finals.len() == 0 {
            assert(grown =~= seq![t]);
        }
    }

    /// A press that leads to an utterance starts it clean: nothing that was said
    /// before is in it, it runs in the mode of the settings, and settings,
    /// watchdog and timers stay as they are.
    pub proof fn law_utterance_starts_clean(self)
        ensures
            self.listening().recording,
            self.listening().finals.len() == 0,
            self.listening().interim.len() == 0,
            self.listening().live == Some(transcribe::mode_for(self.cfg.mode) == "verbatim"@),
            self.listening() == (SessionView {
                recording: true,
                live: self.listening().live,
                finals: Seq::empty(),
                interim: Seq::empty(),
                ..self
            }),
    {
    }

    /// The end of an utterance forgets the preview and lets the pill follow the
    /// settings again; the rest stays.
    pub proof fn law_utterance_ends(self)
        ensures
            self.finished().interim.len() == 0,
            self.finished().live is None,
            self.finished() == (SessionView { interim: Seq::empty(), live: None, ..self }),
    {
    }

    /// The pill is told the mode, the level and the title as they are, and that
    /// it is verbatim exactly where the utterance that runs is, or else the
    /// settings are.
    pub proof fn law_pill_is_told_what_is(self, mode: Mode, bits: u32, title: Seq<char>)
        ensures
            self.pill(mode, bits, title).mode == mode,
            self.pill(mode, bits, title).level.bits == bits,
            self.pill(mode, bits, title).title == title,
            self.live matches Some(v) ==> self.pill(mode, bits, title).verbatim_live == v,
            self.live is None ==> self.pill(mode, bits, title).verbatim_live == (
            transcribe::mode_for(self.cfg.mode) == "verbatim"@),
            self.idle(title) == self.pill(Mode::Idle, 0, title),
    {
    }

    /// A key of nothing but whitespace is no key, and any other is one.
    pub proof fn law_blank_key_is_no_key(self)
        ensures
            self.keyless() <==> (forall|k: int|
                0 <= k < self.cfg.api_key.len() ==> text::is_space(#[trigger] self.cfg.api_key[k])),
    {
        text::law_trim_takes_whitespace_only(self.cfg.api_key);
    }

    /// A chunk is noted at its time. Digital silence is counted, up to the
    /// largest number that can be; anything else sets the count and the wait
    /// before a reopen back. Nothing else changes.
    pub proof fn law_chunks_feed_the_watchdog(self, level: Level, now: u64)
        ensures
            self.noted(level, now).last_take == now,
            level.bits == 0 && self.silent_takes < u32::MAX ==> self.noted(level, now).silent_takes
                == self.silent_takes + 1,
            level.bits == 0 && self.silent_takes == u32::MAX ==> self.noted(level, now).silent_takes
                == u32::MAX,
            level.bits == 0 ==> self.noted(level, now).reopen_wait == self.reopen_wait,
            level.bits != 0 ==> self.noted(level, now).silent_takes == 0 && self.noted(
                level,
                now,
            ).reopen_wait == 5_000,
            self.noted(level, now) == (SessionView {
                last_take: now,
                silent_takes: self.noted(level, now).silent_takes,
                reopen_wait: self.noted(level, now).reopen_wait,
                ..self
            }),
    {
    }

    /// A stream is reopened exactly where it gave thirty chunks of digital
    /// silence in a row, or nothing for three seconds though it is five seconds
    /// old, and where the last reopen is as long ago as the wait asks for.
    pub proof fn law_when_a_stream_is_stale(self, now: u64)
        requires
            now >= self.last_take,
            now >= self.opened,
            self.last_reopen matches Some(t) ==> now >= t,
        ensures
            self.stale(now) <==> {
                &&& self.last_reopen matches Some(t) ==> now - t >= self.reopen_wait
                &&& {
                    ||| self.silent_takes >= 30
                    ||| now - self.last_take >= 3_000 && now - self.opened >= 5_000
                }
            },
    {
    }

    /// A reopened stream is fresh, and the next reopen waits twice as long, up
    /// to a minute. Nothing else changes.
    pub proof fn law_reopen_starts_afresh(self, now: u64)
        requires
            self.wf(),
        ensures
            self.restarted(now).opened == now,
            self.restarted(now).last_take == now,
            self.restarted(now).last_reopen == Some(now),
            self.restarted(now).silent_takes == 0,
            self.reopen_wait <= 30_000 ==> self.restarted(now).reopen_wait == 2 * self.reopen_wait,
            self.reopen_wait > 30_000 ==> self.restarted(now).reopen_wait == 60_000,
            self.restarted(now) == (SessionView {
                opened: now,
                last_take: now,
                last_reopen: Some(now),
                silent_takes: 0,
                reopen_wait: self.restarted(now).reopen_wait,
                ..self
            }),
    {
    }

    /// A setting that is changed from the menu is stored as it was given, the
    /// mode in its canonical form, and no other setting changes with it, nor
    /// anything else.
    pub proof fn law_menu_stores_what_was_chosen(self, v: Seq<char>)
        ensures
            self.with_mic(v).cfg.mic == v,
            self.with_mic(v) == (SessionView {
                cfg: ConfigView { mic: v, ..self.cfg },
                ..self
            }),
            self.with_hotkey(v).cfg.hotkey == v,
            self.with_hotkey(v) == (SessionView {
                cfg: ConfigView { hotkey: v, ..self.cfg },
                ..self
            }),
            self.with_mode(v).cfg.mode == "verbatim"@ <==> text::lowered(text::squeezed(v))
                == "verbatim"@,
            self.with_mode(v).cfg.mode != "verbatim"@ ==> self.with_mode(v).cfg.mode == "smart"@,
            self.with_mode(v) == (SessionView {
                cfg: ConfigView { mode: self.with_mode(v).cfg.mode, ..self.cfg },
                ..self
            }),
    {
        transcribe::law_only_its_name_asks_for_verbatim(v);
    }

    /// A key from the clipboard is stored as it stands there, character for
    /// character, without the whitespace around it: so two different keys are
    /// never stored as the same, and no other setting changes.
    pub proof fn law_pasted_key_is_stored_as_it_is(
        self,
        before: Seq<char>,
        key: Seq<char>,
        after: Seq<char>,
        other: Seq<char>,
    )
        requires
            forall|i: int| 0 <= i < before.len() ==> text::is_space(#[trigger] before[i]),
            forall|i: int| 0 <= i < after.len() ==> text::is_space(#[trigger] after[i]),
            key.len() > 0 && !text::is_space(key[0]) && !text::is_space(key[key.len() - 1]),
            other.len() > 0 && !text::is_space(other[0]) && !text::is_space(
                other[other.len() - 1],
            ),
        ensures
            self.with_key(before + key + after).cfg.api_key == key,
            self.with_key(key).cfg.api_key == self.with_key(other).cfg.api_key ==> key == other,
            self.with_key(key) == (SessionView {
                cfg: ConfigView { api_key: key, ..self.cfg },
                ..self
            }),
    {
        text::lemma_trimmed_padding(before, key, after);
        text::lemma_trimmed_solid_ends(key);
        text::lemma_trimmed_solid_ends(other);
    }
}

/// The time between two moments is their difference, and never less than zero.
pub proof fn law_time_passes(now: u64, then: u64)
    ensures
        now >= then ==> since(now, then) == now - then,
        now < then ==> since(now, then) == 0,
{
}

/// A microphone is called by its name, and the system's by words of its own;
/// the two modes are called differently.
pub proof fn law_labels(mic: Seq<char>)
    ensures
        mic.len() > 0 ==> mic_label(mic) == mic,
        mic.len() == 0 ==> mic_label(mic) == "System default"@,
        mode_label("verbatim"@) == "Verbatim — exact words"@,
        mode_label("smart"@) == "Smart — ums/ahs removed, formatted"@,
{
    transcribe::law_only_its_name_asks_for_verbatim(mic);
}

/// An answer to the setup is accepted wherever it holds the word, whatever
/// stands around it; any other is told by its beginning, and none by silence.
pub proof fn law_setup_answers(a: Seq<char>, b: Seq<char>, other: Seq<char>)
    requires
        !text::contains(other, "setupComplete"@),
    ensures
        setup_reply_of(Some(a + "setupComplete"@ + b)) is Accepted,
        setup_reply_of(Some(other)) matches SetupReplyView::Unexpected(short)
            && short.is_prefix_of(other) && (short == other || short.len() == 300),
        setup_reply_of(None) is Silent,
{
    text::law_contains(a, "setupComplete"@, b, other);
    text::law_cut_keeps_the_beginning(other, 300);
    if other.len() <= 300 {
        assert(text::clipped(other, 300) =~= other);
    }
}

/// A preview in quotes holds the beginning of it, up to sixty characters; of an
/// empty one nothing is shown.
pub proof fn law_quoted_preview(s: Seq<char>)
    ensures
        s.len() == 0 ==> quoted_start(s).len() == 0,
        0 < s.len() <= 60 ==> quoted_start(s) == "“"@ + s + "”"@,
        s.len() > 60 ==> quoted_start(s) == "“"@ + s.take(60) + "”"@,
{
}

impl Grace {
    /// The wait runs from its start: it ends four seconds on, or half a second
    /// after the server last spoke where a final text has come, or when the
    /// server closed, and not before.
    pub proof fn law_when_the_grace_is_over(self, now: u64)
        requires
            now >= self.started,
            self.spoke matches Some(t) ==> now >= t,
        ensures
            self.over(now) <==> {
                ||| now - self.started >= 4_000
                ||| self.closed
                ||| self.spoke matches Some(t) && now - t >= 500
            },
    {
    }

    /// A final text starts the quiet time, and once one has come so does every
    /// preview; a close is remembered, and the start stays.
    pub proof fn law_grace_takes_note(self, ev: EventView, now: u64)
        ensures
            self.after(ev, now).started == self.started,
            self.after(ev, now).closed <==> self.closed || ev.closed,
            ev.finalized is Some ==> self.after(ev, now).spoke == Some(now),
            ev.finalized is None && self.spoke is None ==> self.after(ev, now).spoke is None,
            ev.finalized is None && self.spoke is Some && ev.interim is Some ==> self.after(
                ev,
                now,
            ).spoke == Some(now),
            ev.finalized is None && ev.interim is None ==> self.after(ev, now).spoke == self.spoke,
    {
    }
}

impl Burst {
    /// Another chunk is taken until four were sent or a send failed.
    pub proof fn law_burst_ends(self)
        ensures
            self.open() <==> !self.broken && self.sent < 4,
    {
    }
}

impl Poll {
    /// Another read follows until there were three or one of them ended it.
    pub proof fn law_poll_ends(self)
        ensures
            self.open() <==> !self.over && self.reads < 3,
    {
    }
}

impl SessionView {
    /// What an utterance leaves to be pasted is all that was said in it: its
    /// final texts joined, in order, without whitespace around them and with
    /// nothing else taken away; nothing only where that is whitespace alone. A
    /// single text is pasted as it is.
    pub proof fn law_all_that_was_said_is_pasted(self, events: Seq<EventView>, t: Seq<char>)
        ensures
            ({
                let after = self.listening().heard_all(events);
                let texts = events.filter(|e: EventView| e.finalized is Some).map_values(
                    |e: EventView| e.finalized->0,
                );
                let whole = text::spaced(texts);
                &&& texts.len() > 0 ==> {
                    &&& after.committed() is None <==> (forall|k: int|
                        0 <= k < whole.len() ==> text::is_space(#[trigger] whole[k]))
                    &&& after.committed() matches Some(s) ==> exists|a: int, b: int|
                        #![trigger whole.subrange(a, b)]
                        {
                            &&& 0 <= a < b <= whole.len()
                            &&& s == whole.subrange(a, b)
                            &&& forall|k: int| 0 <= k < a ==> text::is_space(#[trigger] whole[k])
                            &&& forall|k: int|
                                b <= k < whole.len() ==> text::is_space(#[trigger] whole[k])
                        }
                }
            }),
            t.len() > 0 && !text::is_space(t[0]) && !text::is_space(t[t.len() - 1])
                ==> self.listening().heard(
                EventView { interim: None, finalized: Some(t), closed: true },
            ).committed() == Some(t),
            self.listening().committed() is None,
    {
        let fresh = self.listening();
        fresh.law_no_final_text_is_lost(events);
        let texts = events.filter(|e: EventView| e.finalized is Some).map_values(
            |e: EventView| e.finalized->0,
        );
        assert(fresh.finals + texts =~= texts);
        text::law_trim_takes_whitespace_only(text::spaced(texts));
        fresh.law_transcript_grows(t, true);
        if t.len() > 0 && !text::is_space(t[0]) && !text::is_space(t[t.len() - 1]) {
            text::lemma_trimmed_solid_ends(t);
        }
        text::law_trim_takes_whitespace_only(fresh.transcript());
    }
}

/// What follows a menu command says what its fields hold, and so does an answer
/// to the setup.
pub proof fn law_outcomes_say_what_they_hold(o: Outcome, short: String)
    ensures
        o@.pill == o.pill@,
        o@.save == o.save,
        o@.sync == o.sync,
        SetupReply::Accepted@ == SetupReplyView::Accepted,
        SetupReply::Unexpected(short)@ == SetupReplyView::Unexpected(short@),
        SetupReply::Silent@ == SetupReplyView::Silent,
{
}

impl SessionView {
    /// Presses and releases alternate: a press starts an utterance only where
    /// none runs and there is a key, a release ends one only where one runs,
    /// after it none runs, and the transcript, the settings and all else stay
    /// as they are until the utterance is finished.
    pub proof fn law_presses_and_releases_alternate(self, ev: KeyEvent)
        ensures
            self.starts(KeyEvent::Pressed) <==> !self.recording && !self.keyless(),
            self.ends(KeyEvent::Released) <==> self.recording,
            !self.starts(KeyEvent::Released) && !self.ends(KeyEvent::Pressed),
            !(self.starts(ev) && self.ends(ev)),
            self.after_key(ev).recording <==> self.recording && ev == KeyEvent::Pressed,
            self.after_key(ev) == (SessionView { recording: self.after_key(ev).recording, ..self }),
            !self.after_key(KeyEvent::Released).ends(KeyEvent::Released),
            self.listening().ends(KeyEvent::Released),
            !self.listening().starts(KeyEvent::Pressed),
            self.keyless() ==> !self.after_key(ev).starts(KeyEvent::Pressed),
    {
    }

    /// A clipboard text that has the shape of a key becomes the key, without the
    /// whitespace around it; any other, and none, changes nothing.
    pub proof fn law_only_a_key_is_pasted(
        self,
        before: Seq<char>,
        key: Seq<char>,
        after: Seq<char>,
    )
        requires
            forall|i: int| 0 <= i < before.len() ==> text::is_space(#[trigger] before[i]),
            forall|i: int| 0 <= i < after.len() ==> text::is_space(#[trigger] after[i]),
            key.len() > 0 && !text::is_space(key[0]) && !text::is_space(key[key.len() - 1]),
        ensures
            ({
                let pasted = self.after_paste(Some(before + key + after));
                let one_word = forall|i: int|
                    0 <= i < key.len() ==> !text::is_space(#[trigger] key[i]);
                &&& key.len() >= 12 && one_word ==> pasted == (SessionView {
                    cfg: ConfigView { api_key: key, ..self.cfg },
                    ..self
                })
                &&& !(key.len() >= 12 && one_word) ==> pasted == self
            }),
            self.after_paste(None) == self,
    {
        output::law_key_shape_ignores_surrounding_space(before, key, after);
        output::law_shape_of_a_key(key);
        text::lemma_trimmed_padding(before, key, after);
        text::lemma_trimmed_solid_ends(key);
    }

    /// What is read while recording goes into the transcript, whether the server
    /// closes with it or not, and nothing else changes.
    pub proof fn law_stream_hears_every_frame(self, ev: EventView)
        ensures
            ({
                let after = self.during_stream(Some(ev));
                &&& ev.finalized matches Some(t) ==> after.finals == self.finals + seq![t]
                &&& ev.finalized is None ==> after.finals == self.finals
                &&& ev.interim matches Some(t) ==> after.interim == t
                &&& ev.interim is None ==> after.interim == self.interim
                &&& after == (SessionView { finals: after.finals, interim: after.interim, ..self })
            }),
            self.during_stream(None) == self,
    {
        self.law_what_is_said_is_kept(ev, true);
    }

    /// No text that is read while recording is lost: the final texts are those
    /// from before followed by every one that was read, in order.
    pub proof fn law_stream_loses_no_final_text(self, reads: Seq<Option<EventView>>)
        ensures
            self.streamed(reads).finals == self.finals + reads.filter(
                |r: Option<EventView>| r is Some && (r->0).finalized is Some,
            ).map_values(|r: Option<EventView>| (r->0).finalized->0),
            self.streamed(reads).cfg == self.cfg,
            self.streamed(reads).recording == self.recording,
        decreases reads.len(),
    {
        reveal(Seq::filter);
        let has = |r: Option<EventView>| r is Some && (r->0).finalized is Some;
        let get = |r: Option<EventView>| (r->0).finalized->0;
        if reads.len() == 0 {
            assert(self.finals + reads.filter(has).map_values(get) =~= self.finals);
        } else {
            let front = reads.drop_last();
            self.law_stream_loses_no_final_text(front);
            if has(reads.last()) {
                assert(reads.filter(has) == front.filter(has).push(reads.last()));
                assert(front.filter(has).push(reads.last()).map_values(get) =~= front.filter(
                    has,
                ).map_values(get).push(get(reads.last())));
            }
            assert(self.streamed(reads).finals =~= self.finals + reads.filter(has).map_values(get));
        }
    }

    /// At rest a chunk feeds the watchdog, the settings and the transcript are
    /// left alone, and the meter's clock moves exactly where the chunk moves the
    /// meter or the meter was unfed for two seconds.
    pub proof fn law_rest_touches_the_clocks_only(self, level: Level, now: u64)
        requires
            now >= self.last_idle,
        ensures
            ({
                let fed = self.idled(Some(level), now);
                let unfed = self.idled(None, now);
                &&& fed.last_take == now
                &&& fed.silent_takes == self.noted(level, now).silent_takes
                &&& fed.reopen_wait == self.noted(level, now).reopen_wait
                &&& fed.last_idle == now <==> level.bits > 0x4348_0000 || now - self.last_idle
                    >= 2_000 || self.last_idle == now
                &&& unfed.last_idle == now <==> now - self.last_idle >= 2_000 || self.last_idle
                    == now
                &&& fed.last_idle == now || fed.last_idle == self.last_idle
                &&& fed == (SessionView {
                    last_take: now,
                    silent_takes: fed.silent_takes,
                    reopen_wait: fed.reopen_wait,
                    last_idle: fed.last_idle,
                    ..self
                })
                &&& unfed == (SessionView { last_idle: unfed.last_idle, ..self })
                &&& unfed.last_idle == now || unfed.last_idle == self.last_idle
            }),
    {
    }
}

} // verus!
