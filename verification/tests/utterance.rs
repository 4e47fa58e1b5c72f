use utterly::audio::{Level, CHUNK};
use utterly::config::Config;
use utterly::session::{Session, SetupReply};
use utterly::transcribe::{closed_event, setup_json, ws_url, TranscriptEvent};
use utterly::ui::Mode;
use utterly::utterance::{Press, PressEvent, PressStep, Release, ReleaseEvent, ReleaseStep};

fn session() -> Session {
    let mut cfg = Config::default();
    cfg.api_key = "AIzaSyD-example-key-123".to_string();
    cfg.language_codes = vec!["en-US".to_string()];
    Session::new(cfg, None, 0)
}

fn level(v: f32) -> Level {
    Level { bits: v.to_bits() }
}

fn finalized(t: &str) -> Option<TranscriptEvent> {
    Some(TranscriptEvent { interim: None, finalized: Some(t.to_string()), closed: false })
}

#[test]
fn press_goes_in_order() {
    let mut s = session();
    let (mut p, step) = Press::start();
    assert!(matches!(step, PressStep::Clear));
    let step = p.next(&mut s, PressEvent::Cleared);
    assert!(matches!(step, PressStep::Connect(url) if url == ws_url("AIzaSyD-example-key-123")));
    let step = p.next(&mut s, PressEvent::Connected(Ok(())));
    let setup = setup_json(&["en-US".to_string()], "smart");
    assert!(matches!(step, PressStep::SendSetup(text) if text == setup));
    assert!(matches!(p.next(&mut s, PressEvent::SetupSent(Ok(()))), PressStep::StartTurn));
    assert!(matches!(p.next(&mut s, PressEvent::TurnStarted), PressStep::ReadReply));
    assert!(!s.recording);
    match p.next(&mut s, PressEvent::Reply(Some("{\"setupComplete\":{}}".to_string()))) {
        PressStep::Listen(reply, pill) => {
            assert!(matches!(reply, SetupReply::Accepted));
            assert_eq!(pill.mode, Mode::Listening);
            assert_eq!(
                pill.title,
                "Utterly ● Listening… (release Ctrl+Space to transcribe)"
            );
        }
        _ => panic!("the utterance was to run"),
    }
    assert!(s.recording);
}

#[test]
fn silent_and_odd_replies_still_listen() {
    for (reply, silent) in [(None, true), (Some("<CLOSE no frame>".to_string()), false)] {
        let mut s = session();
        let mut p = Press::Verifying;
        match p.next(&mut s, PressEvent::Reply(reply)) {
            PressStep::Listen(SetupReply::Silent, _) => assert!(silent),
            PressStep::Listen(SetupReply::Unexpected(t), _) => {
                assert_eq!(t, "<CLOSE no frame>");
                assert!(!silent);
            }
            _ => panic!("the utterance was to run"),
        }
        assert!(s.recording);
    }
}

#[test]
fn failed_press_leaves_the_session_alone() {
    for ev in [
        (Press::Connecting, PressEvent::Connected(Err("no route".to_string()))),
        (Press::SettingUp, PressEvent::SetupSent(Err("no route".to_string()))),
    ] {
        let mut s = session();
        s.interim = "kept".to_string();
        let (mut p, ev) = ev;
        match p.next(&mut s, ev) {
            PressStep::Failed(pill) => {
                assert_eq!(pill.mode, Mode::Idle);
                assert_eq!(pill.title, "Utterly — connect failed: no route");
            }
            _ => panic!("the press was to fail"),
        }
        assert!(!s.recording);
        assert_eq!(s.interim, "kept");
        assert!(matches!(p, Press::Over));
    }
}

#[test]
fn release_sends_the_rest_before_it_ends_the_turn() {
    let mut s = session();
    s.connected(Ok(()));
    let (mut r, step) = Release::start();
    assert!(matches!(step, ReleaseStep::TakeChunk));
    let loud = [9i16; CHUNK];
    let step = r.next(&mut s, ReleaseEvent::Chunk(loud, level(120.0)), 10);
    assert!(matches!(step, ReleaseStep::Send(c) if c == loud));
    assert!(matches!(r.next(&mut s, ReleaseEvent::Sent, 11), ReleaseStep::TakeChunk));
    let step = r.next(&mut s, ReleaseEvent::Chunk([1i16; CHUNK], level(119.0)), 12);
    assert!(matches!(step, ReleaseStep::TakeChunk));
    assert_eq!(s.last_take, 12);
    assert!(matches!(r.next(&mut s, ReleaseEvent::NoChunk, 13), ReleaseStep::EndTurn));
    assert!(matches!(r.next(&mut s, ReleaseEvent::TurnEnded, 14), ReleaseStep::EndAudio));
    assert!(matches!(r.next(&mut s, ReleaseEvent::AudioEnded, 100), ReleaseStep::Read));
    assert!(matches!(r.next(&mut s, ReleaseEvent::Read(None), 3_000), ReleaseStep::Read));
    let step = r.next(&mut s, ReleaseEvent::Read(finalized("Hello.")), 3_100);
    assert!(matches!(step, ReleaseStep::Read));
    assert!(matches!(r.next(&mut s, ReleaseEvent::Read(None), 3_599), ReleaseStep::Read));
    assert!(matches!(r.next(&mut s, ReleaseEvent::Read(None), 3_600), ReleaseStep::Finish));
    assert!(matches!(r, Release::Over));
    assert_eq!(s.finish().commit.as_deref(), Some("Hello."));
}

#[test]
fn release_ends_on_close_and_at_the_cap() {
    let reading = |s: &mut Session| {
        let mut r = Release::EndingAudio;
        assert!(matches!(r.next(s, ReleaseEvent::AudioEnded, 0), ReleaseStep::Read));
        r
    };
    let mut s = session();
    let mut r = reading(&mut s);
    let step = r.next(&mut s, ReleaseEvent::Read(Some(closed_event())), 1);
    assert!(matches!(step, ReleaseStep::Finish));
    let mut r = reading(&mut s);
    assert!(matches!(r.next(&mut s, ReleaseEvent::Read(None), 3_999), ReleaseStep::Read));
    let step = r.next(&mut s, ReleaseEvent::Read(finalized("late")), 4_000);
    assert!(matches!(step, ReleaseStep::Finish));
    assert_eq!(s.finals, ["late"]);
}
