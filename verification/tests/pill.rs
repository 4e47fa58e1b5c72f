use utterly::audio::Level;
use utterly::tray::{
    build_menu, find_command, icon_for, rgba_dot, tooltip, MenuCmd, MenuEntry, TrayMenu, ICON_SIDE,
};
use utterly::ui::{
    dot_color, pill_position, Look, Mode, Pill, PillUpdate, UiCmd, BARS, BG, BORDER, DIM, GREEN,
    GREY, PILL_H, PILL_W, RED, RING_SIDE, TRACK, WHITE,
};

fn update(mode: Mode, title: &str) -> PillUpdate {
    PillUpdate { mode, level: Level::zero(), title: title.to_string(), verbatim_live: false }
}

#[test]
fn listening_shows_a_hidden_pill() {
    let mut p = Pill::new(0);
    assert_eq!(p.title, "Utterly — hold Ctrl+Space to dictate");
    assert_eq!(p.close(), UiCmd::Hide);
    assert!(p.hidden);
    let e = p.update(update(Mode::Transcribing, "t"), 10);
    assert!(!e.show && e.tray && p.hidden);
    let e = p.update(update(Mode::Listening, "t"), 20);
    assert!(e.show && e.tray && !p.hidden);
    let e = p.update(update(Mode::Listening, "t"), 30);
    assert!(!e.show && !e.tray);
    let e = p.update(update(Mode::Listening, "u"), 40);
    assert!(!e.show && e.tray);
    assert_eq!(p.take_title().as_deref(), Some("u"));
    assert!(p.take_title().is_none());
}

#[test]
fn tray_click_shows_a_hidden_pill() {
    let mut p = Pill::new(0);
    p.end_frame(0);
    assert!(!p.tray_click());
    assert!(!p.dirty);
    p.close();
    assert!(p.tray_click());
    assert!(!p.hidden && p.dirty);
}

#[test]
fn clicks_go_to_the_close_box_first() {
    let mut p = Pill::new(0);
    assert_eq!(p.click(None), None);
    assert_eq!(p.click(Some((false, false))), None);
    assert_eq!(p.click(Some((false, true))), Some(UiCmd::MicToggle));
    assert!(!p.hidden);
    assert_eq!(p.click(Some((true, true))), Some(UiCmd::Hide));
    assert!(p.hidden);
}

#[test]
fn idle_pill_paints_once() {
    let mut p = Pill::new(0);
    assert!(p.begin_frame(32).is_none());
    assert_eq!(p.begin_frame(33), Some(None));
    p.end_frame(33);
    p.wake(1_000_000);
    assert!(p.begin_frame(1_000_000).is_none());
    p.hover(false);
    assert!(!p.dirty);
    p.hover(true);
    assert_eq!(p.begin_frame(1_000_001), Some(None));
}

#[test]
fn press_shake_runs_for_a_moment() {
    let mut p = Pill::new(0);
    p.update(update(Mode::Listening, "l"), 100);
    assert_eq!(p.begin_frame(150), Some(Some(50)));
    p.end_frame(150);
    p.wake(182);
    assert!(p.begin_frame(182).is_none());
    p.wake(183);
    assert_eq!(p.begin_frame(299), Some(Some(199)));
    assert_eq!(p.begin_frame(300), Some(None));
    assert!(p.press_at.is_none());
    assert_eq!(p.begin_frame(150), None);
}

#[test]
fn tray_preview_is_cut() {
    let mut p = Pill::new(0);
    p.update(update(Mode::Idle, &"ö".repeat(70)), 1);
    assert_eq!(p.preview(), "ö".repeat(60));
}

#[test]
fn pill_sits_low_in_the_middle() {
    assert_eq!(pill_position(0, 0, 1920, 1080), Some((770, 778)));
    assert_eq!(pill_position(-1920, 100, 1920, 1080), Some((-1150, 878)));
    assert_eq!(pill_position(0, 0, 379, 64), Some((0, 16)));
    assert_eq!(pill_position(i32::MAX, 0, 1920, 1080), None);
}

#[test]
fn dot_colors_follow_the_mode() {
    assert_eq!(dot_color(Mode::Idle, 1), (0x8E, 0x8E, 0x93));
    assert_eq!(dot_color(Mode::Listening, 200), (200, 0x30, 0x30));
    assert_eq!(dot_color(Mode::Transcribing, 1), (0x34, 0xC7, 0x59));
}

fn look(mode: Mode) -> Look {
    Look {
        mode,
        verbatim_live: false,
        dot: (1, 2, 3),
        shake_dx: 0,
        dot_radius: 10,
        bar_heights: vec![24; BARS],
        lit: 1,
        arc: vec![true; RING_SIDE * RING_SIDE],
        show_x: false,
        x_hot: false,
    }
}

fn frame(look: &Look) -> Vec<u32> {
    let mut buf = vec![7u32; PILL_W * PILL_H + 5];
    look.draw(&mut buf);
    buf
}

fn at(buf: &Vec<u32>, x: usize, y: usize) -> u32 {
    buf[y * PILL_W + x]
}

#[test]
fn frame_of_an_idle_pill() {
    let f = frame(&look(Mode::Idle));
    assert_eq!(at(&f, 0, 0), BG);
    assert_eq!(at(&f, PILL_W - 1, PILL_H - 1), BG);
    assert_eq!(at(&f, 100, 0), BORDER);
    assert_eq!(at(&f, 0, 32), BORDER);
    assert_eq!(at(&f, 100, 10), BG);
    assert_eq!(at(&f, 32, 32), 0x01_02_03);
    assert_eq!(at(&f, 42, 32), 0x01_02_03);
    assert_eq!(at(&f, 43, 32), BG);
    assert_eq!(at(&f, 56, 32), DIM);
    assert_eq!(at(&f, 65, 43), DIM);
    assert_eq!(at(&f, 66, 32), BG);
    assert_eq!(at(&f, 69, 32), TRACK);
    assert_eq!(at(&f, 364, 32), TRACK);
    assert_eq!(at(&f, 365, 32), BG);
    assert_eq!(at(&f, 56, 44), BG);
    assert_eq!(f[PILL_W * PILL_H], BG);
    assert_eq!(f[PILL_W * PILL_H + 4], BG);
}

#[test]
fn spinner_and_meter_follow_the_mode() {
    let f = frame(&look(Mode::Listening));
    assert_eq!(at(&f, 56, 32), RED);
    assert_eq!(at(&f, 46, 32), BG);
    let mut l = look(Mode::Transcribing);
    let f = frame(&l);
    assert_eq!(at(&f, 56, 32), GREEN);
    assert_eq!(at(&f, 46, 32), WHITE);
    l.arc = vec![false; RING_SIDE * RING_SIDE];
    l.arc[16 * RING_SIDE + 30] = true;
    let f = frame(&l);
    assert_eq!(at(&f, 46, 32), WHITE);
    assert_eq!(at(&f, 45, 32), BG);
    l.verbatim_live = true;
    let f = frame(&l);
    assert_eq!(at(&f, 56, 32), RED);
    assert_eq!(at(&f, 46, 32), BG);
}

#[test]
fn shake_moves_dot_and_meter() {
    let mut l = look(Mode::Listening);
    l.shake_dx = -2;
    l.bar_heights = vec![6; BARS];
    let f = frame(&l);
    assert_eq!(at(&f, 20, 32), 0x01_02_03);
    assert_eq!(at(&f, 41, 32), BG);
    assert_eq!(at(&f, 54, 32), RED);
    assert_eq!(at(&f, 54, 35), RED);
    assert_eq!(at(&f, 54, 36), BG);
}

#[test]
fn close_mark_shows_under_the_pointer() {
    let mut l = look(Mode::Idle);
    l.show_x = true;
    let f = frame(&l);
    assert_eq!(at(&f, PILL_W - 17, 7), GREY);
    assert_eq!(at(&f, PILL_W - 16, 7), GREY);
    assert_eq!(at(&f, PILL_W - 14, 7), BG);
    l.x_hot = true;
    let f = frame(&l);
    assert_eq!(at(&f, PILL_W - 17, 7), WHITE);
}

#[test]
fn icons_are_soft_dots() {
    let px = rgba_dot(9, 8, 7);
    assert_eq!(px.len(), ICON_SIDE * ICON_SIDE * 4);
    let at = |x: usize, y: usize| px[4 * (16 * y + x)..4 * (16 * y + x) + 4].to_vec();
    assert_eq!(at(8, 8), vec![9, 8, 7, 255]);
    assert_eq!(at(8, 3), vec![9, 8, 7, 255]);
    assert_eq!(at(8, 2), vec![9, 8, 7, 120]);
    assert_eq!(at(0, 0), vec![0, 0, 0, 0]);
    let mid = 4 * (16 * 8 + 8);
    assert_eq!(icon_for(Mode::Idle)[mid..mid + 4], [0x8E, 0x8E, 0x93, 255]);
    assert_eq!(icon_for(Mode::Listening)[mid..mid + 4], [0xFF, 0x45, 0x3A, 255]);
    assert_eq!(icon_for(Mode::Transcribing)[mid..mid + 4], [0x30, 0xD1, 0x58, 255]);
}

#[test]
fn tooltips_are_cut() {
    assert_eq!(tooltip(Mode::Idle, "x"), "Utterly — hold Ctrl+Space to dictate");
    assert_eq!(tooltip(Mode::Listening, "hi"), "● Listening… hi");
    assert_eq!(tooltip(Mode::Transcribing, "hi"), "… Transcribing hi");
    assert_eq!(tooltip(Mode::Listening, &"z".repeat(200)).chars().count(), 120);
}

fn entries(items: &Vec<MenuEntry>) -> Vec<(String, String, bool)> {
    items.iter().map(|e| (e.value.clone(), e.label.clone(), e.checked)).collect()
}

fn row(value: &str, label: &str, checked: bool) -> (String, String, bool) {
    (value.to_string(), label.to_string(), checked)
}

#[test]
fn menu_lists_what_there_is() {
    let m = build_menu(vec!["USB".to_string(), "Web".to_string()], "Web", "alt+space", "x");
    assert_eq!(
        entries(&m.mics),
        vec![row("", "System default", false), row("USB", "USB", false), row("Web", "Web", true)]
    );
    assert_eq!(
        entries(&m.hotkeys),
        vec![
            row("Ctrl+Space", "Ctrl+Space", false),
            row("Alt+Space", "Alt+Space", true),
            row("Ctrl+Shift+Space", "Ctrl+Shift+Space", false)
        ]
    );
    assert_eq!(
        entries(&m.modes),
        vec![
            row("smart", "Smart (clean ums/ahs)", true),
            row("verbatim", "Verbatim (exact words)", false)
        ]
    );
    let m = build_menu(vec![], "", "", "verbatim");
    assert_eq!(entries(&m.mics), vec![row("", "System default", true)]);
    assert!(m.modes[1].checked && m.hotkeys[0].checked);
}

#[test]
fn menu_ids_lead_to_commands() {
    let menu = TrayMenu {
        mic_items: vec![(String::new(), 1), ("USB".to_string(), 2)],
        hotkey_items: vec![("Ctrl+Space".to_string(), 3), ("Alt+Space".to_string(), 4)],
        mode_items: vec![("smart".to_string(), 5), ("verbatim".to_string(), 6)],
        paste_key: Some(7),
        quit: Some(8),
    };
    let table = menu.id_table();
    assert_eq!(table.len(), 8);
    assert!(matches!(find_command(&table, 2), Some(MenuCmd::Mic(m)) if m == "USB"));
    assert!(matches!(find_command(&table, 4), Some(MenuCmd::Hotkey(p)) if p == "Alt+Space"));
    assert!(matches!(find_command(&table, 6), Some(MenuCmd::Mode(p)) if p == "verbatim"));
    assert!(matches!(find_command(&table, 7), Some(MenuCmd::PasteKey)));
    assert!(matches!(find_command(&table, 8), Some(MenuCmd::Quit)));
    assert!(find_command(&table, 9).is_none());
    assert_eq!(
        menu.sync("USB", "ALT + space", "Verbatim"),
        vec![(1, false), (2, true), (3, false), (4, true), (5, false), (6, true)]
    );
    assert!(TrayMenu::empty().id_table().is_empty());
    assert!(TrayMenu::empty().sync("", "", "").is_empty());
}
