//! The pill: its state, its frames, and what a click on it means.

use vstd::prelude::*;

use crate::audio::Level;
use crate::text;

verus! {

pub const PILL_W: usize = 380;

pub const PILL_H: usize = 64;

/// The shortest time between two frames, in ms: 30 frames a second.
pub const FRAME_MS: u64 = 33;

/// How long the pill shakes after a press, in ms.
pub const SHAKE_MS: u64 = 200;

/// What the pill shows.
#[derive(Debug, Clone, Copy, PartialEq, Eq, Structural)]
pub enum Mode {
    Idle,
    Listening,
    Transcribing,
}

/// What a click on the pill asks of the session.
#[derive(Debug, Clone, Copy, PartialEq, Eq, Structural)]
pub enum UiCmd {
    MicToggle,
    Hide,
}

/// What the session tells the pill.
#[derive(Debug, Clone)]
pub struct PillUpdate {
    pub mode: Mode,
    /// RMS level for the meter.
    pub level: Level,
    pub title: String,
    /// Final texts stream in while the user speaks, so that there is nothing to
    /// wait for: transcribing shows the meter instead of the spinner.
    pub verbatim_live: bool,
}

/// What an update says.
pub struct PillView {
    pub mode: Mode,
    pub level: Level,
    pub title: Seq<char>,
    pub verbatim_live: bool,
}

impl View for PillUpdate {
    type V = PillView;

    open spec fn view(&self) -> PillView {
        PillView {
            mode: self.mode,
            level: self.level,
            title: self.title@,
            verbatim_live: self.verbatim_live,
        }
    }
}

// ---------------------------------------------------------------------------
// Placement
// ---------------------------------------------------------------------------
/// `n` halved, towards zero.
pub open spec fn half(n: int) -> int {
    if n >= 0 {
        n / 2
    } else {
        -((-n) / 2)
    }
}

/// Where the pill goes on a monitor at `(mx, my)` of `mw` by `mh` pixels:
/// centred, three quarters of the way down, as dictation is on a Mac.
pub open spec fn pill_place(mx: int, my: int, mw: int, mh: int) -> (int, int) {
    (mx + half(mw - PILL_W), my + mh * 3 / 4 - PILL_H / 2)
}

/// The place is one that a window can have.
pub open spec fn on_screen(place: (int, int)) -> bool {
    i32::MIN <= place.0 <= i32::MAX && i32::MIN <= place.1 <= i32::MAX
}

/// Where the pill goes on a monitor; `None` if that cannot be expressed.
pub fn pill_position(mx: i32, my: i32, mw: u32, mh: u32) -> (r: Option<(i32, i32)>)
    ensures
        r is Some <==> on_screen(pill_place(mx as int, my as int, mw as int, mh as int)),
        r matches Some(p) ==> (p.0 as int, p.1 as int) == pill_place(
            mx as int,
            my as int,
            mw as int,
            mh as int,
        ),
{
    let d: i64 = mw as i64 - PILL_W as i64;
    let h: i64 = if d >= 0 {
        d / 2
    } else {
        -((-d) / 2)
    };
    let x: i64 = mx as i64 + h;
    let y: i64 = my as i64 + mh as i64 * 3 / 4 - (PILL_H / 2) as i64;
    if i32::MIN as i64 <= x && x <= i32::MAX as i64 && i32::MIN as i64 <= y && y
        <= i32::MAX as i64 {
        Some((x as i32, y as i32))
    } else {
        None
    }
}

// ---------------------------------------------------------------------------
// The pill's state
// ---------------------------------------------------------------------------
/// The state behind the pill window. Times are in ms on one clock.
pub struct Pill {
    pub mode: Mode,
    pub level: Level,
    pub title: String,
    pub verbatim_live: bool,
    /// There is something new to paint.
    pub dirty: bool,
    /// When listening began, while the shake may still run.
    pub press_at: Option<u64>,
    /// Hidden to the tray. That never ends the program.
    pub hidden: bool,
    /// When the last frame was painted.
    pub last_frame: u64,
    /// A title that the window does not show yet.
    pub pending_title: Option<String>,
}

/// What the window has to do about an update.
#[derive(Debug, Clone, Copy, PartialEq, Eq, Structural)]
pub struct UpdateEffect {
    /// Show the window again.
    pub show: bool,
    /// Refresh the tray icon and its tooltip.
    pub tray: bool,
}

/// The title of a pill that was not told anything yet.
pub open spec fn idle_title() -> Seq<char> {
    "Utterly — hold Ctrl+Space to dictate"@
}

impl Pill {
    /// The pill at the start.
    pub fn new(now: u64) -> (r: Pill)
        ensures
            r.mode == Mode::Idle,
            r.level.bits == crate::audio::LEVEL_ZERO,
            r.title@ == idle_title(),
            r.title@ == "Utterly — hold Ctrl+Space to dictate"@,
            !r.verbatim_live,
            r.dirty,
            r.press_at is None,
            !r.hidden,
            r.last_frame == now,
            r.pending_title is None,
    {
        Pill {
            mode: Mode::Idle,
            level: Level::zero(),
            title: "Utterly — hold Ctrl+Space to dictate".to_string(),
            verbatim_live: false,
            dirty: true,
            press_at: None,
            hidden: false,
            last_frame: now,
            pending_title: None,
        }
    }

    /// Takes over an update. Listening that begins starts the shake, and
    /// brings a hidden pill back.
    pub fn update(&mut self, u: PillUpdate, now: u64) -> (r: UpdateEffect)
        ensures
            final(self).mode == u.mode,
            final(self).level == u.level,
            final(self).title@ == u.title@,
            final(self).verbatim_live == u.verbatim_live,
            final(self).dirty,
            final(self).press_at == (if u.mode != old(self).mode && u.mode == Mode::Listening {
                Some(now)
            } else {
                old(self).press_at
            }),
            final(self).hidden == (old(self).hidden && !r.show),
            final(self).last_frame == old(self).last_frame,
            u.title@ != old(self).title@ ==> crate::transcribe::opt_view(
                final(self).pending_title,
            ) == Some(u.title@),
            u.title@ == old(self).title@ ==> final(self).pending_title == old(
                self,
            ).pending_title,
            r.show == (old(self).hidden && u.mode != old(self).mode && u.mode == Mode::Listening),
            r.tray == (u.mode != old(self).mode || u.title@ != old(self).title@),
    {
        let mut effect = UpdateEffect { show: false, tray: false };
        if u.mode != self.mode {
            if u.mode == Mode::Listening {
                self.press_at = Some(now);
                if self.hidden {
                    effect.show = true;
                    self.hidden = false;
                }
            }
            self.mode = u.mode;
            effect.tray = true;
        }
        self.verbatim_live = u.verbatim_live;
        self.level = u.level;
        if !text::same(u.title.as_str(), self.title.as_str()) {
            self.title = u.title.clone();
            self.pending_title = Some(u.title);
            effect.tray = true;
        }
        self.dirty = true;
        effect
    }

    /// The title as the tray shows it.
    pub fn preview(&self) -> (r: String)
        ensures
            r@ == text::clipped(self.title@, 60),
    {
        text::clip(self.title.as_str(), 60)
    }

    /// A click on the tray icon brings a hidden pill back. Returns whether the
    /// window is to be shown.
    pub fn tray_click(&mut self) -> (show: bool)
        ensures
            show == old(self).hidden,
            *final(self) == (Pill {
                hidden: false,
                dirty: old(self).dirty || old(self).hidden,
                ..*old(self)
            }),
    {
        let show = self.hidden;
        if show {
            self.hidden = false;
            self.dirty = true;
        }
        show
    }

    /// Enough time since the last frame.
    pub open spec fn rested(&self, now: u64) -> bool {
        now - self.last_frame >= FRAME_MS
    }

    fn is_rested(&self, now: u64) -> (r: bool)
        ensures
            r == self.rested(now),
    {
        now >= self.last_frame && now - self.last_frame >= FRAME_MS
    }

    /// A frame is to be painted.
    pub open spec fn frame_due(&self, now: u64) -> bool {
        self.dirty && self.rested(now)
    }

    /// After the event loop woke up: the states that are animated have
    /// something new to paint, once the last frame is old enough.
    pub open spec fn woken(self, now: u64) -> Pill {
        Pill { dirty: self.dirty || (self.rested(now) && self.mode != Mode::Idle), ..self }
    }

    /// The event loop woke up.
    pub fn wake(&mut self, now: u64)
        ensures
            *final(self) == old(self).woken(now),
    {
        if self.is_rested(now) && self.mode != Mode::Idle {
            self.dirty = true;
        }
    }

    /// Hands out a title that the window does not show yet.
    pub fn take_title(&mut self) -> (r: Option<String>)
        ensures
            r == old(self).pending_title,
            *final(self) == (Pill { pending_title: None, ..*old(self) }),
    {
        self.pending_title.take()
    }

    /// The time since listening began, while the shake runs.
    pub open spec fn shake_time(&self, now: u64) -> Option<u64> {
        match self.press_at {
            Some(p) => if self.mode == Mode::Listening && now - p < SHAKE_MS {
                Some((if now >= p {
                    now - p
                } else {
                    0
                }) as u64)
            } else {
                None
            },
            None => None,
        }
    }

    /// Whether a frame is due, and if so how far the press shake is, if it
    /// runs. A shake that is over is forgotten.
    pub fn begin_frame(&mut self, now: u64) -> (r: Option<Option<u64>>)
        ensures
            r is Some <==> old(self).frame_due(now),
            r matches Some(shake) ==> shake == old(self).shake_time(now),
            *final(self) == (Pill {
                press_at: if r is Some && old(self).mode == Mode::Listening && old(
                    self,
                ).shake_time(now) is None {
                    None
                } else {
                    old(self).press_at
                },
                ..*old(self)
            }),
    {
        if !(self.dirty && self.is_rested(now)) {
            return None;
        }
        if self.mode != Mode::Listening {
            return Some(None);
        }
        match self.press_at {
            Some(p) => {
                let ms: u64 = now.saturating_sub(p);
                if ms < SHAKE_MS {
                    Some(Some(ms))
                } else {
                    self.press_at = None;
                    Some(None)
                }
            },
            None => Some(None),
        }
    }

    /// A frame was painted.
    pub fn end_frame(&mut self, now: u64)
        ensures
            *final(self) == old(self).painted(now),
    {
        self.last_frame = now;
        self.dirty = false;
    }

    /// The window was asked to close: it hides.
    pub fn close(&mut self) -> (r: UiCmd)
        ensures
            r == UiCmd::Hide,
            *final(self) == (Pill { hidden: true, ..*old(self) }),
    {
        self.hidden = true;
        UiCmd::Hide
    }

    /// The pointer moved over the pill.
    pub fn hover(&mut self, moved: bool)
        ensures
            *final(self) == (Pill { dirty: old(self).dirty || moved, ..*old(self) }),
    {
        if moved {
            self.dirty = true;
        }
    }

    /// A left click, with whether the pointer is on the close box and whether
    /// it is on the microphone dot; `None` where the pointer was never seen.
    /// The close box is asked first.
    pub fn click(&mut self, over: Option<(bool, bool)>) -> (r: Option<UiCmd>)
        ensures
            r == (match over {
                Some(hit) => if hit.0 {
                    Some(UiCmd::Hide)
                } else if hit.1 {
                    Some(UiCmd::MicToggle)
                } else {
                    None
                },
                None => None,
            }),
            *final(self) == (Pill {
                hidden: old(self).hidden || r == Some(UiCmd::Hide),
                ..*old(self)
            }),
    {
        match over {
            Some((on_close, on_mic)) => {
                if on_close {
                    self.hidden = true;
                    Some(UiCmd::Hide)
                } else if on_mic {
                    Some(UiCmd::MicToggle)
                } else {
                    None
                }
            },
            None => None,
        }
    }

    /// After a frame was painted.
    pub open spec fn painted(self, now: u64) -> Pill {
        Pill { last_frame: now, dirty: false, ..self }
    }

    /// An idle pill rests: once it is painted, waking up changes nothing and no
    /// frame is due, however late, until something new is to be shown.
    pub proof fn law_idle_pill_rests(self, now: u64, woke: u64, later: u64)
        requires
            self.mode == Mode::Idle,
        ensures
            self.painted(now).woken(woke) == self.painted(now),
            !self.painted(now).frame_due(later),
    {
    }

    /// Listening and transcribing are animated: at a wake-up a whole frame time
    /// after the last one, the next frame is due.
    pub proof fn law_busy_pill_is_animated(self, now: u64, later: u64)
        requires
            self.mode != Mode::Idle,
            later - now >= FRAME_MS,
        ensures
            self.painted(now).woken(later).frame_due(later),
    {
    }

    /// At most 30 frames a second: until a whole frame time has passed, none is
    /// due, whatever is new.
    pub proof fn law_frame_rate_is_capped(self, now: u64, dirty: bool, later: u64)
        requires
            later - now < FRAME_MS,
        ensures
            !(Pill { dirty, ..self.painted(now) }).woken(later).frame_due(later),
    {
    }
}

// ---------------------------------------------------------------------------
// Frames
// ---------------------------------------------------------------------------
pub const BG: u32 = 0x1E_1E_20;

pub const BORDER: u32 = 0x3A_3A_3C;

pub const TRACK: u32 = 0x2C_2C_2E;

pub const WHITE: u32 = 0xFF_FF_FF;

pub const GREY: u32 = 0x8E_8E_93;

pub const RED: u32 = 0xFF_45_3A;

pub const GREEN: u32 = 0x30_D1_58;

pub const DIM: u32 = 0x48_48_4A;

/// The number of bars of the meter.
pub const BARS: usize = 24;

/// The side of the square in which the spinner's ring fits.
pub const RING_SIDE: usize = 33;

/// The colour of the microphone dot. While listening it pulses between two
/// reds; `pulse` is how red it is at the moment.
pub fn dot_color(mode: Mode, pulse: u8) -> (r: (u8, u8, u8))
    ensures
        r == (match mode {
            Mode::Idle => (0x8Eu8, 0x8Eu8, 0x93u8),
            Mode::Listening => (pulse, 0x30u8, 0x30u8),
            Mode::Transcribing => (0x34u8, 0xC7u8, 0x59u8),
        }),
{
    match mode {
        Mode::Idle => (0x8E, 0x8E, 0x93),
        Mode::Listening => (pulse, 0x30, 0x30),
        Mode::Transcribing => (0x34, 0xC7, 0x59),
    }
}

/// Everything that decides what a frame looks like.
pub struct Look {
    pub mode: Mode,
    pub verbatim_live: bool,
    /// The colour of the microphone dot.
    pub dot: (u8, u8, u8),
    /// How far the press shake moves dot and meter to the right.
    pub shake_dx: i32,
    /// The radius of the dot.
    pub dot_radius: i32,
    /// The height of each bar of the meter.
    pub bar_heights: Vec<i32>,
    /// How many bars are lit, from the left.
    pub lit: usize,
    /// For each offset from the dot's centre, row by row, whether the spinner's
    /// arc lies in its direction.
    pub arc: Vec<bool>,
    /// The pointer is on the pill: the close mark shows.
    pub show_x: bool,
    /// The pointer is on the close box: the mark is bright.
    pub x_hot: bool,
}

impl Look {
    pub open spec fn wf(&self) -> bool {
        &&& self.bar_heights@.len() == BARS
        &&& self.arc@.len() == RING_SIDE * RING_SIDE
        &&& -1_000 <= self.shake_dx <= 1_000
        &&& 0 <= self.dot_radius <= 1_000
    }

    /// Smart mode waits for its texts, so it spins; live verbatim does not.
    pub open spec fn spinning(&self) -> bool {
        self.mode == Mode::Transcribing && !self.verbatim_live
    }

    /// The colour of a lit bar.
    pub open spec fn bar_color(&self) -> u32 {
        match self.mode {
            Mode::Idle => DIM,
            Mode::Listening => RED,
            Mode::Transcribing => if self.verbatim_live {
                RED
            } else {
                GREEN
            },
        }
    }

    /// The colour of the dot.
    pub open spec fn dot_pixel(&self) -> int {
        self.dot.0 * 0x1_0000 + self.dot.1 * 0x100 + self.dot.2
    }

    /// The point lies in the dot.
    pub open spec fn in_dot(&self, x: int, y: int) -> bool {
        let dx = x - 32 - self.shake_dx;
        let dy = y - 32;
        dx * dx + dy * dy <= self.dot_radius * self.dot_radius
    }

    /// The point lies on the spinner's arc.
    pub open spec fn on_arc(&self, x: int, y: int) -> bool {
        let dx = x - 32 - self.shake_dx;
        let dy = y - 32;
        &&& self.spinning()
        &&& 144 <= dx * dx + dy * dy <= 256
        &&& self.arc@[(dy + 16) * RING_SIDE + dx + 16]
    }

    /// The bar that the point belongs to: bars are 10 wide and 3 apart.
    pub open spec fn bar_at(&self, x: int) -> int {
        (x - self.shake_dx - 56) / 13
    }

    /// The point lies on a bar of the meter.
    pub open spec fn on_bar(&self, x: int, y: int) -> bool {
        let m = x - self.shake_dx - 56;
        &&& 20 <= y < 44
        &&& 0 <= m
        &&& m / 13 < BARS
        &&& (y - 32) * 2 <= self.bar_heights@[m / 13]
        &&& (32 - y) * 2 <= self.bar_heights@[m / 13]
        &&& m % 13 < 10
    }

    /// The point lies on the close mark, while that shows.
    pub open spec fn on_mark(&self, x: int, y: int) -> bool {
        let i = x - (PILL_W - 18);
        let j = y - 6;
        &&& self.show_x
        &&& 0 <= i < 12
        &&& 0 <= j < 12
        &&& i - j == 0 || i - j == 1 || i + j == 11 || i + j == 12
    }

    /// The colour of a point. Rounded corners are cut; then the close mark lies
    /// over the meter, that over the spinner, that over the dot, and the dot
    /// over the outline.
    pub open spec fn pixel(&self, x: int, y: int) -> int {
        if corner_cut(x, y) {
            BG as int
        } else if self.on_mark(x, y) {
            if self.x_hot {
                WHITE as int
            } else {
                GREY as int
            }
        } else if self.on_bar(x, y) {
            if self.bar_at(x) < self.lit {
                self.bar_color() as int
            } else {
                TRACK as int
            }
        } else if self.on_arc(x, y) {
            WHITE as int
        } else if self.in_dot(x, y) {
            self.dot_pixel()
        } else if x == 0 || y == 0 || x == PILL_W - 1 || y == PILL_H - 1 {
            BORDER as int
        } else {
            BG as int
        }
    }

    fn color_at(&self, x: i32, y: i32) -> (r: u32)
        requires
            self.wf(),
            0 <= x < PILL_W,
            0 <= y < PILL_H,
        ensures
            r == self.pixel(x as int, y as int),
    {
        if is_corner_cut(x, y) {
            return BG;
        }
        if self.show_x {
            let i: i32 = x - 362;
            let j: i32 = y - 6;
            if 0 <= i && i < 12 && 0 <= j && j < 12 && (i - j == 0 || i - j == 1 || i + j == 11
                || i + j == 12) {
                return if self.x_hot {
                    WHITE
                } else {
                    GREY
                };
            }
        }
        if 20 <= y && y < 44 {
            let m: i32 = x - self.shake_dx - 56;
            if m >= 0 {
                let b: usize = (m / 13) as usize;
                if b < BARS {
                    let h: i32 = self.bar_heights[b];
                    if (y - 32) * 2 <= h && (32 - y) * 2 <= h && m % 13 < 10 {
                        return if b < self.lit {
                            self.bar_pixel()
                        } else {
                            TRACK
                        };
                    }
                }
            }
        }
        let dx: i32 = x - 32 - self.shake_dx;
        let dy: i32 = y - 32;
        assert(-2_000 <= dx <= 2_000 && -64 <= dy <= 64);
        proof {
            lemma_squares(dx as int, 2_000);
            lemma_squares(dy as int, 64);
            lemma_squares(self.dot_radius as int, 1_000);
        }
        let d2: i32 = dx * dx + dy * dy;
        if self.mode == Mode::Transcribing && !self.verbatim_live && 144 <= d2 && d2 <= 256 {
            proof {
                lemma_root(dx as int);
                lemma_root(dy as int);
            }
            if self.arc[((dy + 16) * 33 + dx + 16) as usize] {
                return WHITE;
            }
        }
        if d2 <= self.dot_radius * self.dot_radius {
            return self.dot.0 as u32 * 0x1_0000 + self.dot.1 as u32 * 0x100 + self.dot.2 as u32;
        }
        if x == 0 || y == 0 || x == 379 || y == 63 {
            BORDER
        } else {
            BG
        }
    }

    fn bar_pixel(&self) -> (r: u32)
        ensures
            r == self.bar_color(),
    {
        match self.mode {
            Mode::Idle => DIM,
            Mode::Listening => RED,
            Mode::Transcribing => if self.verbatim_live {
                RED
            } else {
                GREEN
            },
        }
    }

    /// Paints a frame over all of `buf`, row by row. What lies beyond the pill
    /// is background, so that no strip of a larger buffer is left unpainted.
    pub fn draw(&self, buf: &mut [u32])
        requires
            self.wf(),
            old(buf)@.len() >= PILL_W * PILL_H,
        ensures
            final(buf)@.len() == old(buf)@.len(),
            forall|i: int|
                0 <= i < PILL_W * PILL_H ==> #[trigger] final(buf)@[i] == self.pixel(
                    i % (PILL_W as int),
                    i / (PILL_W as int),
                ),
            forall|i: int| PILL_W * PILL_H <= i < final(buf)@.len() ==> final(buf)@[i] == BG,
    {
        let n: usize = buf.len();
        let mut k: usize = 0;
        while k < n
            invariant
                n == buf@.len(),
                n == old(buf)@.len(),
                k <= n,
                forall|i: int| 0 <= i < k ==> buf@[i] == BG,
            decreases n - k,
        {
            buf[k] = BG;
            k = k + 1;
        }
        let mut y: usize = 0;
        while y < PILL_H
            invariant
                self.wf(),
                n == buf@.len(),
                n == old(buf)@.len(),
                n >= PILL_W * PILL_H,
                y <= PILL_H,
                forall|i: int|
                    0 <= i < y * PILL_W ==> #[trigger] buf@[i] == self.pixel(
                        i % (PILL_W as int),
                        i / (PILL_W as int),
                    ),
                forall|i: int| PILL_W * PILL_H <= i < n ==> buf@[i] == BG,
            decreases PILL_H - y,
        {
            let mut x: usize = 0;
            while x < PILL_W
                invariant
                    self.wf(),
                    n == buf@.len(),
                    n == old(buf)@.len(),
                    n >= PILL_W * PILL_H,
                    y < PILL_H,
                    x <= PILL_W,
                    forall|i: int|
                        0 <= i < y * PILL_W + x ==> #[trigger] buf@[i] == self.pixel(
                            i % (PILL_W as int),
                            i / (PILL_W as int),
                        ),
                    forall|i: int| PILL_W * PILL_H <= i < n ==> buf@[i] == BG,
                decreases PILL_W - x,
            {
                let at: usize = y * PILL_W + x;
                assert(at as int % PILL_W as int == x && at as int / PILL_W as int == y);
                buf[at] = self.color_at(x as i32, y as i32);
                x = x + 1;
            }
            y = y + 1;
        }
    }

    /// A louder meter only lights bars: a frame that differs in nothing but
    /// more lit bars differs only where a bar went from track to lit.
    pub proof fn law_meter_is_monotonic(self, louder: Look, x: int, y: int)
        requires
            louder == (Look { lit: louder.lit, ..self }),
            self.lit <= louder.lit,
        ensures
            self.pixel(x, y) != louder.pixel(x, y) ==> {
                &&& self.on_bar(x, y)
                &&& self.pixel(x, y) == TRACK
                &&& louder.pixel(x, y) == self.bar_color()
            },
    {
    }

    /// The spinner is smart mode's alone: elsewhere the arc does not show.
    pub proof fn law_only_smart_mode_spins(self, arc: Vec<bool>, x: int, y: int)
        requires
            self.mode != Mode::Transcribing || self.verbatim_live,
        ensures
            (Look { arc, ..self }).pixel(x, y) == self.pixel(x, y),
    {
    }

    /// The close mark stays clear of the meter.
    pub proof fn law_mark_is_clear_of_the_meter(self, x: int, y: int)
        ensures
            !(self.on_mark(x, y) && self.on_bar(x, y)),
    {
    }
}

/// The square of the distance from `(cx, cy)` exceeds the corner radius.
pub open spec fn outside(x: int, y: int, cx: int, cy: int) -> bool {
    (x - cx) * (x - cx) + (y - cy) * (y - cy) > 256
}

/// The point lies outside the rounded corners.
pub open spec fn corner_cut(x: int, y: int) -> bool {
    let right = PILL_W - 16;
    let low = PILL_H - 16;
    ||| x < 16 && y < 16 && outside(x, y, 16, 16)
    ||| x >= right && y < 16 && outside(x, y, right - 1, 16)
    ||| x < 16 && y >= low && outside(x, y, 16, low - 1)
    ||| x >= right && y >= low && outside(x, y, right - 1, low - 1)
}

proof fn lemma_squares(v: int, bound: int)
    requires
        -bound <= v <= bound,
    ensures
        0 <= v * v <= bound * bound,
{
    assert(0 <= v * v <= bound * bound) by (nonlinear_arith)
        requires
            -bound <= v <= bound,
    ;
}

proof fn lemma_root(v: int)
    ensures
        v * v <= 256 ==> -16 <= v <= 16,
{
    assert(v * v <= 256 ==> -16 <= v <= 16) by (nonlinear_arith);
}

fn is_outside(x: i32, y: i32, cx: i32, cy: i32) -> (r: bool)
    requires
        -1_000 <= x <= 1_000,
        -1_000 <= y <= 1_000,
        -1_000 <= cx <= 1_000,
        -1_000 <= cy <= 1_000,
    ensures
        r == outside(x as int, y as int, cx as int, cy as int),
{
    let dx: i32 = x - cx;
    let dy: i32 = y - cy;
    proof {
        lemma_squares(dx as int, 2_000);
        lemma_squares(dy as int, 2_000);
    }
    dx * dx + dy * dy > 256
}

fn is_corner_cut(x: i32, y: i32) -> (r: bool)
    requires
        0 <= x < PILL_W,
        0 <= y < PILL_H,
    ensures
        r == corner_cut(x as int, y as int),
{
    (x < 16 && y < 16 && is_outside(x, y, 16, 16)) || (x >= 364 && y < 16 && is_outside(
        x,
        y,
        363,
        16,
    )) || (x < 16 && y >= 48 && is_outside(x, y, 16, 47)) || (x >= 364 && y >= 48 && is_outside(
        x,
        y,
        363,
        47,
    ))
}

// ---------------------------------------------------------------------------
// What the pill promises
// ---------------------------------------------------------------------------
/// An update says what its fields hold, each as it is.
pub proof fn law_update_says_what_it_holds(u: PillUpdate)
    ensures
        u@.mode == u.mode,
        u@.level == u.level,
        u@.title == u.title@,
        u@.verbatim_live == u.verbatim_live,
{
}

/// The pill sits in the middle of its monitor, to the pixel, and its own middle
/// is three quarters of the way down.
pub proof fn law_pill_sits_low_in_the_middle(mx: int, my: int, mw: int, mh: int)
    requires
        mw >= 0,
        mh >= 0,
    ensures
        ({
            let (x, y) = pill_place(mx, my, mw, mh);
            let left = x - mx;
            let right = (mx + mw) - (x + 380);
            &&& -1 <= left - right <= 1
            &&& 3 * mh - 4 < 4 * (y + 32 - my) <= 3 * mh
        }),
        on_screen((mx, my)) <==> -0x8000_0000 <= mx < 0x8000_0000 && -0x8000_0000 <= my
            < 0x8000_0000,
{
}

impl Pill {
    /// A frame is painted where there is something new and 33 ms have passed
    /// since the last one; waking up makes something new of a state that is
    /// animated, and of no other.
    pub proof fn law_when_a_frame_is_painted(self, now: u64)
        ensures
            self.frame_due(now) <==> self.dirty && now - self.last_frame >= 33,
            self.woken(now).dirty <==> self.dirty || (self.mode != Mode::Idle && now
                - self.last_frame >= 33),
            self.woken(now) == (Pill { dirty: self.woken(now).dirty, ..self }),
            self.painted(now) == (Pill { last_frame: now, dirty: false, ..self }),
    {
    }

    /// The press shake runs for 200 ms from the press, while listening.
    pub proof fn law_shake_runs_from_the_press(self, now: u64)
        ensures
            self.shake_time(now) is Some <==> self.mode == Mode::Listening && (
            self.press_at matches Some(p) && now - p < 200),
            self.shake_time(now) matches Some(ms) ==> ms < 200 && (now >= self.press_at->0 ==> ms
                == now - self.press_at->0),
    {
    }
}

impl Look {
    /// The rounded corners are quarter circles of radius 16, the same at all
    /// four, and nothing else is cut.
    pub proof fn law_corners_are_round(x: int, y: int)
        requires
            0 <= x < 380,
            0 <= y < 64,
        ensures
            x < 16 && y < 16 ==> (corner_cut(x, y) <==> (x - 16) * (x - 16) + (y - 16) * (y - 16)
                > 256),
            16 <= x < 364 || 16 <= y < 48 ==> !corner_cut(x, y),
            corner_cut(379 - x, y) == corner_cut(x, y),
            corner_cut(x, 63 - y) == corner_cut(x, y),
    {
        assert((379 - x - 363) * (379 - x - 363) == (x - 16) * (x - 16)) by (nonlinear_arith);
        assert((379 - x - 16) * (379 - x - 16) == (x - 363) * (x - 363)) by (nonlinear_arith);
        assert((63 - y - 47) * (63 - y - 47) == (y - 16) * (y - 16)) by (nonlinear_arith);
        assert((63 - y - 16) * (63 - y - 16) == (y - 47) * (y - 47)) by (nonlinear_arith);
    }

    /// The dot is a full circle around its place, the arc lies on a ring around
    /// it in the directions that are marked, the bars are ten wide and three
    /// apart and stand around the middle, and the close mark is a cross of two
    /// lines.
    pub proof fn law_shapes(self, x: int, y: int)
        ensures
            ({
                let dx = x - (32 + self.shake_dx);
                let dy = y - 32;
                &&& self.in_dot(x, y) <==> dx * dx + dy * dy <= self.dot_radius * self.dot_radius
                &&& self.on_arc(x, y) <==> {
                    &&& self.mode == Mode::Transcribing && !self.verbatim_live
                    &&& 144 <= dx * dx + dy * dy <= 256
                    &&& self.arc@[(dy + 16) * 33 + dx + 16]
                }
            }),
            ({
                let m = x - self.shake_dx - 56;
                &&& self.on_bar(x, y) <==> {
                    &&& 20 <= y < 44
                    &&& 0 <= m < 24 * 13
                    &&& m % 13 < 10
                    &&& -self.bar_heights@[m / 13] <= 2 * (y - 32) <= self.bar_heights@[m / 13]
                }
                &&& self.bar_at(x) == m / 13
            }),
            ({
                let i = x - 362;
                let j = y - 6;
                self.on_mark(x, y) <==> {
                    &&& self.show_x
                    &&& 0 <= i < 12
                    &&& 0 <= j < 12
                    &&& i == j || i == j + 1 || i + j == 11 || i + j == 12
                }
            }),
    {
    }

    /// What lies on top: a cut corner is background; else the close mark, else a
    /// bar, else the arc, else the dot, else the outline, else background.
    pub proof fn law_layers(self, x: int, y: int)
        ensures
            ({
                let mark = self.on_mark(x, y);
                let bar = self.on_bar(x, y);
                let arc = self.on_arc(x, y);
                let dot = self.in_dot(x, y);
                let edge = x == 0 || y == 0 || x == 379 || y == 63;
                let p = self.pixel(x, y);
                &&& corner_cut(x, y) ==> p == BG
                &&& !corner_cut(x, y) ==> {
                    &&& mark ==> p == (if self.x_hot {
                        WHITE
                    } else {
                        GREY
                    })
                    &&& !mark && bar && self.bar_at(x) >= self.lit ==> p == TRACK
                    &&& !mark && bar && self.bar_at(x) < self.lit ==> p == self.bar_color()
                    &&& !mark && !bar && arc ==> p == WHITE
                    &&& !mark && !bar && !arc && dot ==> p == self.dot.0 * 65_536 + self.dot.1 * 256
                        + self.dot.2
                    &&& !mark && !bar && !arc && !dot && edge ==> p == BORDER
                    &&& !mark && !bar && !arc && !dot && !edge ==> p == BG
                }
            }),
            self.mode == Mode::Idle ==> self.bar_color() == DIM,
            self.mode == Mode::Listening ==> self.bar_color() == RED,
            self.mode == Mode::Transcribing && self.verbatim_live ==> self.bar_color() == RED,
            self.mode == Mode::Transcribing && !self.verbatim_live ==> self.bar_color() == GREEN,
    {
    }
}

} // verus!
