use utterly::audio::{Level, CHUNK};
use utterly::cli::{apply_setting, Setting};
use utterly::config::Config;
use utterly::hotkey::KeyEvent;
use utterly::session::{
    classify_setup_response, demo_mode, interim_short, should_stop_grace, Burst, Grace, KeyStep,
    MenuStep, Outcome, Poll, Session, SetupReply, BURST, GRACE_CAP_MS, GRACE_QUIET_MS,
    LEVEL_DEMO_LISTENING, LEVEL_DEMO_TRANSCRIBING, POLL_READS, REOPEN_MAX_MS, REOPEN_MIN_MS,
    SETUP_VERIFY_MS,
};
use utterly::transcribe::{closed_event, TranscriptEvent};
use utterly::tray::MenuCmd;
use utterly::ui::{Mode, PillUpdate, UiCmd};

fn level(v: f32) -> Level {
    Level { bits: v.to_bits() }
}

fn keyed() -> Config {
    let mut cfg = Config::default();
    cfg.api_key = "AIzaSyD-example-key-123".to_string();
    cfg
}

fn session() -> Session {
    Session::new(keyed(), None, 1_000)
}

fn says(interim: Option<&str>, finalized: Option<&str>) -> TranscriptEvent {
    TranscriptEvent {
        interim: interim.map(|s| s.to_string()),
        finalized: finalized.map(|s| s.to_string()),
        closed: false,
    }
}

fn shows(u: &PillUpdate, mode: Mode, title: &str) {
    assert_eq!(u.mode, mode);
    assert_eq!(u.title, title);
}

#[test]
fn first_run_points_at_the_key_page() {
    let s = Session::new(Config::default(), None, 0);
    shows(
        &s.first_run().unwrap(),
        Mode::Idle,
        "Utterly — paste your AI Studio key: utterly --set-key KEY (https://aistudio.google.com/apikey)",
    );
    assert!(session().first_run().is_none());
    let mut blank = keyed();
    blank.api_key = " \n".to_string();
    assert!(Session::new(blank, None, 0).first_run().is_some());
}

#[test]
fn start_up_titles() {
    let s = session();
    shows(&s.ready(), Mode::Idle, "Utterly — hold Ctrl+Space to dictate");
    shows(&s.mic_failed("no mic"), Mode::Idle, "Utterly — mic error: no mic");
    shows(&s.hotkey_failed("taken"), Mode::Idle, "Utterly — hotkey error: taken");
    assert!(!s.ready().verbatim_live);
    let mut cfg = keyed();
    cfg.mode = "Verbatim".to_string();
    assert!(Session::new(cfg, None, 0).ready().verbatim_live);
}

#[test]
fn heartbeat_every_thirty_seconds() {
    let mut s = session();
    assert!(!s.heartbeat(30_999));
    assert!(s.heartbeat(31_000));
    assert!(!s.heartbeat(60_999));
    assert!(s.heartbeat(61_000));
}

#[test]
fn demo_repaints_every_two_seconds() {
    assert_eq!(demo_mode(Some("listening")), Some(Mode::Listening));
    assert_eq!(demo_mode(Some("transcribing")), Some(Mode::Transcribing));
    assert_eq!(demo_mode(Some("Listening")), None);
    assert_eq!(demo_mode(None), None);
    assert!(session().demo_tick(1_000).is_none());
    let mut s = Session::new(keyed(), Some(Mode::Listening), 0);
    let u = s.demo_tick(0).unwrap();
    shows(&u, Mode::Listening, "Utterly ● Listening… (demo preview)");
    assert_eq!(u.level, level(3000.0));
    assert_eq!(LEVEL_DEMO_LISTENING, 3000.0f32.to_bits());
    assert!(s.demo_tick(1_999).is_none());
    assert!(s.demo_tick(2_000).is_some());
    let mut s = Session::new(keyed(), Some(Mode::Transcribing), 0);
    let u = s.demo_tick(5).unwrap();
    shows(&u, Mode::Transcribing, "Utterly … transcribing (demo preview)");
    assert_eq!(LEVEL_DEMO_TRANSCRIBING, 500.0f32.to_bits());
    assert_eq!(u.level, level(500.0));
}

#[test]
fn ticks_are_short_while_recording() {
    let mut s = session();
    assert_eq!(s.tick_interval(), 50);
    s.connected(Ok(()));
    assert_eq!(s.tick_interval(), 10);
    assert_eq!(SETUP_VERIFY_MS, 400);
}

#[test]
fn watchdog_notices_digital_silence() {
    let mut s = session();
    for i in 0..29 {
        s.note_take(level(0.0), 1_000 + i);
        assert!(!s.watchdog_due(1_000 + i));
    }
    s.note_take(level(0.0), 1_030);
    assert!(s.watchdog_due(1_030));
    s.note_take(level(0.5), 1_040);
    assert!(!s.watchdog_due(1_040));
    assert_eq!(s.silent_takes, 0);
}

#[test]
fn watchdog_notices_a_starved_stream() {
    let mut s = session();
    assert!(!s.watchdog_due(5_999));
    assert!(s.watchdog_due(6_000));
    s.note_take(level(9.0), 4_000);
    assert!(!s.watchdog_due(6_999));
    assert!(s.watchdog_due(7_000));
}

#[test]
fn reopening_backs_off_up_to_a_minute() {
    let mut s = session();
    let mut waits = Vec::new();
    for _ in 0..6 {
        shows(
            &s.reopened(10_000),
            Mode::Idle,
            "Utterly — mic stream recovered, hold Ctrl+Space to dictate",
        );
        waits.push(s.reopen_wait);
    }
    assert_eq!(waits, vec![10_000, 20_000, 40_000, REOPEN_MAX_MS, 60_000, 60_000]);
    for _ in 0..40 {
        s.note_take(level(0.0), 10_001);
    }
    assert!(!s.watchdog_due(69_999));
    assert!(s.watchdog_due(70_000));
    s.reopen_failed(70_000);
    assert_eq!(s.reopen_wait, 60_000);
    assert!(!s.watchdog_due(129_999));
    assert!(s.watchdog_due(130_000));
    s.note_take(level(1.0), 130_000);
    assert_eq!(s.reopen_wait, REOPEN_MIN_MS);
}

fn done(step: MenuStep) -> Outcome {
    match step {
        MenuStep::Done(o) => o,
        _ => panic!("nothing more was to do"),
    }
}

#[test]
fn menu_switches_the_microphone() {
    let mut s = session();
    assert!(matches!(s.on_menu(MenuCmd::Mic("USB".to_string())), MenuStep::OpenMic));
    assert_eq!(s.cfg.mic, "USB");
    let o = s.mic_switched(Ok(()));
    shows(&o.pill, Mode::Idle, "Utterly — mic: USB");
    assert!(o.save && o.sync);
    let o = s.mic_switched(Err("busy".to_string()));
    shows(&o.pill, Mode::Idle, "Utterly — mic error: busy");
    assert!(!o.save && !o.sync);
    s.on_menu(MenuCmd::Mic(String::new()));
    shows(&s.mic_switched(Ok(())).pill, Mode::Idle, "Utterly — mic: System default");
}

#[test]
fn menu_switches_the_hotkey() {
    let mut s = session();
    let preset = match s.on_menu(MenuCmd::Hotkey("Alt+Space".to_string())) {
        MenuStep::SwitchHotkey(p) => p,
        _ => panic!("the hotkey was to move"),
    };
    assert_eq!(s.cfg.hotkey, "Ctrl+Space");
    let o = s.hotkey_switched(preset.clone(), Err("taken".to_string()));
    shows(&o.pill, Mode::Idle, "Utterly — hotkey error: taken");
    assert!(!o.save && !o.sync);
    assert_eq!(s.cfg.hotkey, "Ctrl+Space");
    let o = s.hotkey_switched(preset, Ok(()));
    shows(&o.pill, Mode::Idle, "Utterly — hold Alt+Space to dictate (smart)");
    assert!(o.save && o.sync);
    assert_eq!(s.cfg.hotkey, "Alt+Space");
}

#[test]
fn menu_switches_the_mode() {
    let mut s = session();
    let o = done(s.on_menu(MenuCmd::Mode("VERBATIM".to_string())));
    shows(&o.pill, Mode::Idle, "Utterly — mode: Verbatim — exact words (next utterance)");
    assert!(o.save && o.sync && o.pill.verbatim_live);
    assert_eq!(s.cfg.mode, "verbatim");
    let o = done(s.on_menu(MenuCmd::Mode("smart".to_string())));
    shows(
        &o.pill,
        Mode::Idle,
        "Utterly — mode: Smart — ums/ahs removed, formatted (next utterance)",
    );
    assert_eq!(s.cfg.mode, "smart");
}

#[test]
fn menu_pastes_a_key() {
    let mut s = session();
    assert!(matches!(s.on_menu(MenuCmd::PasteKey), MenuStep::ReadClipboard));
    let o = s.key_pasted(Some("not a key at all".to_string()));
    shows(
        &o.pill,
        Mode::Idle,
        "Utterly — clipboard has no key (copy it from AI Studio first)",
    );
    assert!(!o.save && !o.sync);
    assert!(!s.key_pasted(None).save);
    assert_eq!(s.cfg.api_key, "AIzaSyD-example-key-123");
    let o = s.key_pasted(Some(" another-long-key\n".to_string()));
    shows(&o.pill, Mode::Idle, "Utterly — API key saved, hold Ctrl+Space to dictate");
    assert!(o.save && !o.sync);
    assert_eq!(s.cfg.api_key, "another-long-key");
    assert!(matches!(s.on_menu(MenuCmd::Quit), MenuStep::Exit));
}

#[test]
fn setup_replies_are_classified() {
    assert!(matches!(
        classify_setup_response(Some(r#"{"setupComplete":{}}"#)),
        SetupReply::Accepted
    ));
    assert!(matches!(classify_setup_response(None), SetupReply::Silent));
    let long = "<CLOSE ".to_string() + &"é".repeat(400);
    match classify_setup_response(Some(&long)) {
        SetupReply::Unexpected(short) => {
            assert_eq!(short.chars().count(), 300);
            assert!(long.starts_with(&short));
        }
        _ => panic!("a close is unexpected"),
    }
    assert!(matches!(classify_setup_response(Some("")), SetupReply::Unexpected(s) if s.is_empty()));
}

#[test]
fn previews_are_quoted_and_cut() {
    assert_eq!(interim_short(""), "");
    assert_eq!(interim_short("hello"), "“hello”");
    assert_eq!(interim_short(&"x".repeat(61)), format!("“{}”", "x".repeat(60)));
}

#[test]
fn press_needs_a_key_and_no_recording() {
    let mut s = session();
    assert!(matches!(s.on_key(KeyEvent::Released), KeyStep::Ignore));
    assert!(matches!(s.on_key(KeyEvent::Pressed), KeyStep::Connect));
    let u = s.connected(Err("no route".to_string()));
    shows(&u, Mode::Idle, "Utterly — connect failed: no route");
    assert!(!s.recording);
    shows(
        &s.connected(Ok(())),
        Mode::Listening,
        "Utterly ● Listening… (release Ctrl+Space to transcribe)",
    );
    assert!(s.recording);
    assert!(matches!(s.on_key(KeyEvent::Pressed), KeyStep::Ignore));
    let mut keyless = Session::new(Config::default(), None, 0);
    assert!(matches!(keyless.on_key(KeyEvent::Pressed), KeyStep::Ignore));
}

#[test]
fn pill_click_acts_as_the_hotkey() {
    let mut s = session();
    assert_eq!(s.on_ui(UiCmd::MicToggle), Some(KeyEvent::Pressed));
    s.connected(Ok(()));
    assert_eq!(s.on_ui(UiCmd::MicToggle), Some(KeyEvent::Released));
    assert_eq!(s.on_ui(UiCmd::Hide), None);
}

#[test]
fn utterance_is_what_was_said_during_it() {
    let mut s = session();
    s.hear(says(Some("stale"), Some("Old text.")));
    s.connected(Ok(()));
    assert!(s.hear(says(Some("hel"), None)));
    assert!(s.hear(says(Some("hello wo"), Some("Hello"))));
    assert!(s.hear(says(None, Some("world. "))));
    assert!(!s.hear(says(None, None)));
    match s.on_key(KeyEvent::Released) {
        KeyStep::Finish(u) => shows(&u, Mode::Transcribing, "Utterly … transcribing “hello wo”"),
        _ => panic!("the utterance was to end"),
    }
    assert!(!s.recording);
    let f = s.finish();
    assert_eq!(f.commit.as_deref(), Some("Hello world."));
    shows(&f.pill, Mode::Idle, "Utterly — Hello world.");
    assert_eq!(s.interim, "");
}

#[test]
fn preview_stands_in_for_missing_finals() {
    let mut s = session();
    s.connected(Ok(()));
    s.hear(says(Some("  only a preview "), None));
    let f = s.finish();
    assert_eq!(f.commit.as_deref(), Some("only a preview"));
}

#[test]
fn nothing_heard_pastes_nothing() {
    let mut s = session();
    s.connected(Ok(()));
    let f = s.finish();
    assert!(f.commit.is_none());
    shows(&f.pill, Mode::Idle, "Utterly — heard nothing, try again");
    s.connected(Ok(()));
    s.hear(says(Some("x"), Some(" \n")));
    assert!(s.finish().commit.is_none());
}

#[test]
fn long_texts_are_cut_in_the_title_only() {
    let mut s = session();
    s.connected(Ok(()));
    s.hear(says(None, Some(&"ä".repeat(100))));
    let f = s.finish();
    assert_eq!(f.commit.unwrap().chars().count(), 100);
    assert_eq!(f.pill.title, format!("Utterly — {}", "ä".repeat(80)));
}

#[test]
fn quiet_chunks_are_not_sent() {
    let mut s = session();
    assert!(!s.on_chunk(level(119.0), 1_100));
    assert!(s.on_chunk(level(120.0), 1_200));
    assert_eq!(s.last_take, 1_200);
    assert!(!s.on_chunk(level(0.0), 1_300));
    assert_eq!(s.silent_takes, 1);
}

#[test]
fn bursts_are_bounded() {
    let mut s = session();
    let chunk = [7i16; CHUNK];
    assert!(s.stream_chunk(&mut Burst::new(), chunk, level(500.0), 1_050).is_none());
    s.connected(Ok(()));
    let mut b = Burst::new();
    let mut sent = 0;
    let mut quiet = 0;
    while b.wants_more() {
        let loudness = level(if quiet < 10 { 5.0 } else { 500.0 });
        if let Some(c) = s.stream_chunk(&mut b, chunk, loudness, 1_100) {
            assert!(c == chunk);
            sent += 1;
            b.delivered(true);
        } else {
            quiet += 1;
        }
    }
    assert_eq!((sent, quiet), (BURST, 10));
    assert_eq!(b.level, level(500.0));
    let mut b = Burst::new();
    b.delivered(false);
    assert!(!b.wants_more());
    assert_eq!(b.sent, 0);
}

#[test]
fn polls_are_bounded() {
    let mut s = session();
    s.connected(Ok(()));
    let mut p = Poll::new();
    let mut reads = 0;
    while p.wants_more() {
        s.stream_read(&mut p, Some(says(None, Some("a"))));
        reads += 1;
    }
    assert_eq!(reads, POLL_READS);
    assert!(p.updated);
    assert_eq!(s.finals.len(), 3);
    let mut p = Poll::new();
    s.stream_read(&mut p, None);
    assert!(!p.wants_more() && !p.updated);
    let mut p = Poll::new();
    s.stream_read(&mut p, Some(closed_event()));
    assert!(!p.wants_more() && !p.updated);
}

#[test]
fn streaming_pill_shows_text_or_level() {
    let mut s = session();
    s.connected(Ok(()));
    let mut p = Poll::new();
    let mut b = Burst::new();
    assert!(s.stream_pill(&p, &b).is_none());
    s.stream_chunk(&mut b, [0i16; CHUNK], level(40.0), 1_100);
    let u = s.stream_pill(&p, &b).unwrap();
    shows(&u, Mode::Listening, "Utterly ● ");
    assert_eq!(u.level, level(40.0));
    s.stream_read(&mut p, Some(says(Some(&"y".repeat(90)), None)));
    let u = s.stream_pill(&p, &Burst::new()).unwrap();
    assert_eq!(u.title, format!("Utterly ● {}", "y".repeat(80)));
    assert_eq!(u.level, level(0.0));
}

#[test]
fn idle_meter_moves_with_sound() {
    let mut s = session();
    assert!(!s.idle_due(1_099));
    assert!(s.idle_due(1_100));
    assert!(s.idle_tick(Some(level(200.0)), 1_100).is_none());
    assert_eq!(s.last_idle, 1_000);
    assert_eq!(s.last_take, 1_100);
    let u = s.idle_tick(Some(level(201.0)), 1_200).unwrap();
    shows(&u, Mode::Idle, "Utterly — hold Ctrl+Space to dictate");
    assert_eq!(u.level, level(201.0));
    assert_eq!(s.last_idle, 1_200);
    assert!(s.idle_tick(None, 3_199).is_none());
    assert_eq!(s.last_idle, 1_200);
    assert!(s.idle_tick(None, 3_200).is_none());
    assert_eq!(s.last_idle, 3_200);
    assert_eq!(s.last_take, 1_200);
}

#[test]
fn grace_ends_on_cap_close_or_quiet() {
    assert!(!should_stop_grace(3_999, false, None));
    assert!(should_stop_grace(GRACE_CAP_MS, false, None));
    assert!(should_stop_grace(0, true, None));
    assert!(!should_stop_grace(600, false, Some(499)));
    assert!(should_stop_grace(600, false, Some(GRACE_QUIET_MS)));
    assert_eq!((GRACE_CAP_MS, GRACE_QUIET_MS), (4_000, 500));
}

#[test]
fn grace_waits_for_the_first_final() {
    let mut g = Grace::new(10_000);
    g.note(&says(Some("pre"), None), 10_100);
    assert!(!g.done(13_999));
    assert!(g.done(14_000));
    g.note(&says(None, Some("Text.")), 10_200);
    assert!(!g.done(10_699));
    assert!(g.done(10_700));
    g.note(&says(Some("more"), None), 10_600);
    assert!(!g.done(11_099));
    assert!(g.done(11_100));
    g.note(&says(None, None), 11_000);
    assert!(g.done(11_100));
    let mut g = Grace::new(0);
    g.note(&closed_event(), 1);
    assert!(g.done(1));
}

#[test]
fn menu_and_command_line_agree() {
    let mut s = session();
    s.on_menu(MenuCmd::Mic("USB".to_string()));
    s.on_menu(MenuCmd::Mode("Verbatim".to_string()));
    s.hotkey_switched("Alt+Space".to_string(), Ok(()));
    s.key_pasted(Some(" another-long-key ".to_string()));
    let mut cfg = keyed();
    apply_setting(&mut cfg, Setting::Mic("USB".to_string()));
    apply_setting(&mut cfg, Setting::Mode("Verbatim".to_string()));
    apply_setting(&mut cfg, Setting::Hotkey("Alt+Space".to_string()));
    apply_setting(&mut cfg, Setting::Key(" another-long-key ".to_string()));
    assert_eq!(s.cfg.mic, cfg.mic);
    assert_eq!(s.cfg.mode, cfg.mode);
    assert_eq!(s.cfg.hotkey, cfg.hotkey);
    assert_eq!(s.cfg.api_key, cfg.api_key);
}

#[test]
fn running_utterance_keeps_its_mode() {
    let mut s = session();
    assert!(!s.connected(Ok(())).verbatim_live);
    let o = done(s.on_menu(MenuCmd::Mode("verbatim".to_string())));
    assert!(!o.pill.verbatim_live);
    match s.on_key(KeyEvent::Released) {
        KeyStep::Finish(u) => assert!(!u.verbatim_live),
        _ => panic!("the utterance was to end"),
    }
    assert!(s.finish().pill.verbatim_live);
    assert!(s.connected(Ok(())).verbatim_live);
}
