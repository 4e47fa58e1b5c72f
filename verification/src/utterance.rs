//! The order of things in an utterance: what happens at the press, before
//! anything is heard, and at the release, before anything is pasted.
//!
//! The caller performs the step that it is given and reports what came of it,
//! which gives the next step.

use vstd::prelude::*;

use crate::audio::{Level, CHUNK, LEVEL_SILENCE, LEVEL_ZERO};
use crate::session::{
    classify_setup_response, Grace, Session, SessionView, SetupReply, SetupReplyView,
};
use crate::transcribe;
use crate::transcribe::{EventView, TranscriptEvent};
use crate::ui::{Mode, PillUpdate, PillView};

verus! {

/// What goes out over the socket during an utterance.
pub enum Message {
    Setup(Seq<char>),
    TurnStart,
    Audio(Seq<i16>),
    TurnEnd,
    AudioEnd,
}

/// The chunks that are sent, among chunks with their levels: those that are
/// loud enough, as they are and in their order.
pub open spec fn gated(chunks: Seq<(Seq<i16>, Level)>) -> Seq<Message>
    decreases chunks.len(),
{
    if chunks.len() == 0 {
        Seq::empty()
    } else {
        let rest = gated(chunks.drop_last());
        if chunks.last().1.bits >= LEVEL_SILENCE {
            rest.push(Message::Audio(chunks.last().0))
        } else {
            rest
        }
    }
}

/// Each chunk is judged alone: what is sent of one stretch of audio
/// after another is what is sent of both.
pub proof fn law_gate_composes(a: Seq<(Seq<i16>, Level)>, b: Seq<(Seq<i16>, Level)>)
    ensures
        gated(a + b) == gated(a) + gated(b),
    decreases b.len(),
{
    if b.len() == 0 {
        assert(a + b =~= a);
        assert(gated(a) + gated(b) =~= gated(a));
    } else {
        law_gate_composes(a, b.drop_last());
        assert((a + b).drop_last() =~= a + b.drop_last());
        assert(gated(a + b) =~= gated(a) + gated(b));
    }
}

// ---------------------------------------------------------------------------
// Press
// ---------------------------------------------------------------------------
/// How far a press has come.
pub enum Press {
    Clearing,
    Connecting,
    SettingUp,
    Starting,
    Verifying,
    Over,
}

/// What came of a step.
pub enum PressEvent {
    Cleared,
    Connected(Result<(), String>),
    SetupSent(Result<(), String>),
    TurnStarted,
    /// The server's answer to the setup, or none in time.
    Reply(Option<String>),
}

/// What to do next.
pub enum PressStep {
    /// Drop what was captured so far, and its signals.
    Clear,
    /// Connect to this address.
    Connect(String),
    /// Send the setup.
    SendSetup(String),
    /// Send the marker that opens the turn.
    StartTurn,
    /// Read the answer to the setup.
    ReadReply,
    /// The utterance runs: what the answer was, and what the pill shows.
    Listen(SetupReply, PillUpdate),
    /// No utterance: what the pill shows.
    Failed(PillUpdate),
}

/// What an event says.
pub enum PressSeen {
    Cleared,
    Connected(Result<(), Seq<char>>),
    SetupSent(Result<(), Seq<char>>),
    TurnStarted,
    Reply(Option<Seq<char>>),
}

/// What a step says.
pub enum PressAct {
    Clear,
    Connect(Seq<char>),
    SendSetup(Seq<char>),
    StartTurn,
    ReadReply,
    Listen(SetupReplyView, PillView),
    Failed(PillView),
}

/// What a result says.
pub open spec fn outcome(r: Result<(), String>) -> Result<(), Seq<char>> {
    match r {
        Ok(_) => Ok(()),
        Err(e) => Err(e@),
    }
}

impl View for PressEvent {
    type V = PressSeen;

    open spec fn view(&self) -> PressSeen {
        match self {
            PressEvent::Cleared => PressSeen::Cleared,
            PressEvent::Connected(r) => PressSeen::Connected(outcome(*r)),
            PressEvent::SetupSent(r) => PressSeen::SetupSent(outcome(*r)),
            PressEvent::TurnStarted => PressSeen::TurnStarted,
            PressEvent::Reply(r) => PressSeen::Reply(transcribe::opt_view(*r)),
        }
    }
}

impl View for PressStep {
    type V = PressAct;

    open spec fn view(&self) -> PressAct {
        match self {
            PressStep::Clear => PressAct::Clear,
            PressStep::Connect(url) => PressAct::Connect(url@),
            PressStep::SendSetup(setup) => PressAct::SendSetup(setup@),
            PressStep::StartTurn => PressAct::StartTurn,
            PressStep::ReadReply => PressAct::ReadReply,
            PressStep::Listen(reply, pill) => PressAct::Listen(reply@, pill@),
            PressStep::Failed(pill) => PressAct::Failed(pill@),
        }
    }
}

impl SessionView {
    /// What the setup says for the settings.
    pub open spec fn setup(self) -> Seq<char> {
        transcribe::setup_message(self.cfg.language_codes, self.cfg.mode)
    }

    /// After an event of a press: the utterance runs once the answer to the
    /// setup was waited for, and only then does anything change.
    pub open spec fn during_press(self, seen: PressSeen) -> SessionView {
        if seen is Reply {
            self.listening()
        } else {
            self
        }
    }
}

impl Press {
    /// The event belongs to the step that was given last.
    pub open spec fn expects(self, seen: PressSeen) -> bool {
        match self {
            Press::Clearing => seen is Cleared,
            Press::Connecting => seen is Connected,
            Press::SettingUp => seen is SetupSent,
            Press::Starting => seen is TurnStarted,
            Press::Verifying => seen is Reply,
            Press::Over => false,
        }
    }

    /// What follows an event.
    pub open spec fn reply(self, session: SessionView, seen: PressSeen) -> (Press, PressAct) {
        match seen {
            PressSeen::Cleared => (
                Press::Connecting,
                PressAct::Connect(
                    transcribe::WS_URL@ + "?key="@ + session.cfg.api_key,
                ),
            ),
            PressSeen::Connected(Ok(_)) => (
                Press::SettingUp,
                PressAct::SendSetup(session.setup()),
            ),
            PressSeen::SetupSent(Ok(_)) => (Press::Starting, PressAct::StartTurn),
            PressSeen::Connected(Err(e)) => (Press::Over, failure(session, e)),
            PressSeen::SetupSent(Err(e)) => (Press::Over, failure(session, e)),
            PressSeen::TurnStarted => (Press::Verifying, PressAct::ReadReply),
            PressSeen::Reply(r) => (
                Press::Over,
                PressAct::Listen(
                    crate::session::setup_reply_of(r),
                    session.listening().pill(
                        Mode::Listening,
                        LEVEL_ZERO,
                        "Utterly ● Listening… (release Ctrl+Space to transcribe)"@,
                    ),
                ),
            ),
        }
    }

    /// A press begins: old audio must not leak into the utterance.
    pub fn start() -> (r: (Press, PressStep))
        ensures
            r.0 is Clearing,
            r.1@ == PressAct::Clear,
    {
        (Press::Clearing, PressStep::Clear)
    }

    /// Takes what came of the last step and gives the next one.
    pub fn next(&mut self, session: &mut Session, ev: PressEvent) -> (step: PressStep)
        requires
            old(self).expects(ev@),
        ensures
            final(session)@ == old(session)@.during_press(ev@),
            (*final(self), step@) == old(self).reply(old(session)@, ev@),
            match ev {
                PressEvent::Cleared => step matches PressStep::Connect(url) && url@
                    == transcribe::WS_URL@ + "?key="@ + old(session).cfg.api_key@,
                PressEvent::Connected(Ok(_)) => step matches PressStep::SendSetup(setup) && setup@
                    == transcribe::setup_message(
                    crate::text::views(old(session).cfg.language_codes@),
                    old(session).cfg.mode@,
                ),
                PressEvent::SetupSent(Ok(_)) => step is StartTurn,
                PressEvent::TurnStarted => step is ReadReply,
                PressEvent::Reply(_) => step is Listen && final(session).recording,
                PressEvent::Connected(Err(e)) => step matches PressStep::Failed(pill)
                    && pill.title@ == "Utterly — connect failed: "@ + e@,
                PressEvent::SetupSent(Err(e)) => step matches PressStep::Failed(pill)
                    && pill.title@ == "Utterly — connect failed: "@ + e@,
            },
    {
        match ev {
            PressEvent::Cleared => {
                *self = Press::Connecting;
                PressStep::Connect(transcribe::ws_url(session.cfg.api_key.as_str()))
            },
            PressEvent::Connected(Ok(_)) => {
                *self = Press::SettingUp;
                PressStep::SendSetup(
                    transcribe::setup_json(
                        session.cfg.language_codes.as_slice(),
                        session.cfg.mode.as_str(),
                    ),
                )
            },
            PressEvent::SetupSent(Ok(_)) => {
                *self = Press::Starting;
                PressStep::StartTurn
            },
            PressEvent::Connected(Err(e)) => {
                *self = Press::Over;
                PressStep::Failed(session.connected(Err(e)))
            },
            PressEvent::SetupSent(Err(e)) => {
                *self = Press::Over;
                PressStep::Failed(session.connected(Err(e)))
            },
            PressEvent::TurnStarted => {
                *self = Press::Verifying;
                PressStep::ReadReply
            },
            PressEvent::Reply(r) => {
                *self = Press::Over;
                let reply = match &r {
                    Some(raw) => classify_setup_response(Some(raw.as_str())),
                    None => classify_setup_response(None),
                };
                PressStep::Listen(reply, session.connected(Ok(())))
            },
        }
    }

    /// How far a press has come after several events.
    pub open spec fn after(self, session: SessionView, seen: Seq<PressSeen>) -> Press
        decreases seen.len(),
    {
        if seen.len() == 0 {
            self
        } else {
            self.after(session, seen.drop_last()).reply(session, seen.last()).0
        }
    }

    /// Every event belongs to the step before it.
    pub open spec fn follows(self, session: SessionView, seen: Seq<PressSeen>) -> bool
        decreases seen.len(),
    {
        seen.len() > 0 ==> {
            &&& self.follows(session, seen.drop_last())
            &&& self.after(session, seen.drop_last()).expects(seen.last())
        }
    }

    /// The steps that several events give.
    pub open spec fn acts(self, session: SessionView, seen: Seq<PressSeen>) -> Seq<PressAct>
        decreases seen.len(),
    {
        if seen.len() == 0 {
            Seq::empty()
        } else {
            self.acts(session, seen.drop_last()).push(
                self.after(session, seen.drop_last()).reply(session, seen.last()).1,
            )
        }
    }

    /// The place of a phase in a press that goes well.
    pub open spec fn stage(self) -> int {
        match self {
            Press::Clearing => 0,
            Press::Connecting => 1,
            Press::SettingUp => 2,
            Press::Starting => 3,
            Press::Verifying => 4,
            Press::Over => 5,
        }
    }

    /// A press goes in one order: the capture is cleared before the connection
    /// is made, the setup goes out on it first and the marker that opens the
    /// turn right after, then the answer is read, and then the utterance runs.
    /// A failure to connect or to send the setup ends it at once.
    pub proof fn law_press_keeps_its_order(session: SessionView, seen: Seq<PressSeen>, i: int)
        requires
            Press::Clearing.follows(session, seen),
            0 <= i < seen.len(),
        ensures
            ({
                let acts = Press::Clearing.acts(session, seen);
                &&& acts.len() == seen.len() <= 5
                &&& acts[i].place() == i + 1 || acts[i] is Failed
                &&& acts[i] is Failed ==> i == seen.len() - 1
            }),
        decreases seen.len(),
    {
        Press::lemma_press_stage(session, seen);
        let front = seen.drop_last();
        if i < front.len() {
            Press::law_press_keeps_its_order(session, front, i);
        }
    }

    proof fn lemma_press_stage(session: SessionView, seen: Seq<PressSeen>)
        requires
            Press::Clearing.follows(session, seen),
        ensures
            ({
                let phase = Press::Clearing.after(session, seen);
                let acts = Press::Clearing.acts(session, seen);
                &&& acts.len() == seen.len() <= 5
                &&& phase.stage() == seen.len() || phase is Over
                &&& seen.len() > 0 ==> {
                    &&& acts.last().place() == seen.len() || acts.last() is Failed
                    &&& phase is Over <==> acts.last() is Failed || acts.last() is Listen
                }
                &&& seen.len() == 0 ==> phase is Clearing
            }),
        decreases seen.len(),
    {
        if seen.len() > 0 {
            Press::lemma_press_stage(session, seen.drop_last());
        }
    }

    /// What a press that leads to an utterance sends: the setup and the marker
    /// that opens the turn, in this order and nothing else.
    pub proof fn law_press_messages(session: SessionView, seen: Seq<PressSeen>)
        requires
            Press::Clearing.follows(session, seen),
            seen.len() > 0,
            Press::Clearing.acts(session, seen).last() is Listen,
        ensures
            press_messages(Press::Clearing.acts(session, seen)) == seq![
                Message::Setup(session.setup()),
                Message::TurnStart,
            ],
    {
        Press::lemma_press_stage(session, seen);
        Press::lemma_press_messages(session, seen);
        assert(press_messages(Press::Clearing.acts(session, seen)) =~= seq![
            Message::Setup(session.setup()),
            Message::TurnStart,
        ]);
    }

    proof fn lemma_press_messages(session: SessionView, seen: Seq<PressSeen>)
        requires
            Press::Clearing.follows(session, seen),
        ensures
            ({
                let sent = press_messages(Press::Clearing.acts(session, seen));
                let acts = Press::Clearing.acts(session, seen);
                let none = Seq::<Message>::empty();
                match Press::Clearing.after(session, seen) {
                    Press::Clearing => sent == none,
                    Press::Connecting => sent == none,
                    Press::SettingUp => sent == none.push(Message::Setup(session.setup())),
                    Press::Starting => sent == none.push(Message::Setup(session.setup())).push(
                        Message::TurnStart,
                    ),
                    Press::Verifying => sent == none.push(Message::Setup(session.setup())).push(
                        Message::TurnStart,
                    ),
                    Press::Over => acts.last() is Listen ==> sent == none.push(
                        Message::Setup(session.setup()),
                    ).push(Message::TurnStart),
                }
            }),
        decreases seen.len(),
    {
        if seen.len() > 0 {
            let front = seen.drop_last();
            Press::lemma_press_messages(session, front);
            Press::lemma_press_stage(session, front);
            Press::lemma_press_stage(session, seen);
            let acts = Press::Clearing.acts(session, seen);
            assert(acts.drop_last() =~= Press::Clearing.acts(session, front));
        }
    }
}

/// The step of a failed press.
pub open spec fn failure(session: SessionView, e: Seq<char>) -> PressAct {
    PressAct::Failed(session.idle("Utterly — connect failed: "@ + e))
}

impl PressAct {
    /// The place of a step in a press that goes well.
    pub open spec fn place(self) -> int {
        match self {
            PressAct::Clear => 0,
            PressAct::Connect(_) => 1,
            PressAct::SendSetup(_) => 2,
            PressAct::StartTurn => 3,
            PressAct::ReadReply => 4,
            PressAct::Listen(_, _) => 5,
            PressAct::Failed(_) => 6,
        }
    }
}

/// What the steps of a press send.
pub open spec fn press_messages(acts: Seq<PressAct>) -> Seq<Message>
    decreases acts.len(),
{
    if acts.len() == 0 {
        Seq::empty()
    } else {
        let rest = press_messages(acts.drop_last());
        match acts.last() {
            PressAct::SendSetup(setup) => rest.push(Message::Setup(setup)),
            PressAct::StartTurn => rest.push(Message::TurnStart),
            _ => rest,
        }
    }
}

// ---------------------------------------------------------------------------
// Release
// ---------------------------------------------------------------------------
/// How far a release has come.
pub enum Release {
    Draining,
    Sending,
    EndingTurn,
    EndingAudio,
    /// The grace period runs.
    Reading(Grace),
    Over,
}

/// What came of a step.
pub enum ReleaseEvent {
    /// A chunk was there, with its level.
    Chunk([i16; CHUNK], Level),
    /// No chunk is left.
    NoChunk,
    /// The chunk was sent, or the sending failed.
    Sent,
    TurnEnded,
    AudioEnded,
    /// What a read came back with.
    Read(Option<TranscriptEvent>),
}

/// What to do next.
pub enum ReleaseStep {
    TakeChunk,
    /// Send this chunk.
    Send([i16; CHUNK]),
    /// Send the marker that ends the turn.
    EndTurn,
    /// Send the marker that ends the audio stream.
    EndAudio,
    /// Read once more.
    Read,
    /// Let the socket go and finish the utterance.
    Finish,
}

/// What an event says.
pub enum ReleaseSeen {
    Chunk(Seq<i16>, Level),
    NoChunk,
    Sent,
    TurnEnded,
    AudioEnded,
    Read(Option<EventView>),
}

/// What a step says.
pub enum ReleaseAct {
    TakeChunk,
    Send(Seq<i16>),
    EndTurn,
    EndAudio,
    Read,
    Finish,
}

/// What a read came back with.
pub open spec fn heard_in(read: Option<TranscriptEvent>) -> Option<EventView> {
    match read {
        Some(ev) => Some(ev@),
        None => None,
    }
}

impl View for ReleaseEvent {
    type V = ReleaseSeen;

    open spec fn view(&self) -> ReleaseSeen {
        match self {
            ReleaseEvent::Chunk(chunk, level) => ReleaseSeen::Chunk(chunk@, *level),
            ReleaseEvent::NoChunk => ReleaseSeen::NoChunk,
            ReleaseEvent::Sent => ReleaseSeen::Sent,
            ReleaseEvent::TurnEnded => ReleaseSeen::TurnEnded,
            ReleaseEvent::AudioEnded => ReleaseSeen::AudioEnded,
            ReleaseEvent::Read(read) => ReleaseSeen::Read(heard_in(*read)),
        }
    }
}

impl View for ReleaseStep {
    type V = ReleaseAct;

    open spec fn view(&self) -> ReleaseAct {
        match self {
            ReleaseStep::TakeChunk => ReleaseAct::TakeChunk,
            ReleaseStep::Send(chunk) => ReleaseAct::Send(chunk@),
            ReleaseStep::EndTurn => ReleaseAct::EndTurn,
            ReleaseStep::EndAudio => ReleaseAct::EndAudio,
            ReleaseStep::Read => ReleaseAct::Read,
            ReleaseStep::Finish => ReleaseAct::Finish,
        }
    }
}

impl SessionView {
    /// After an event of a release: a chunk feeds the watchdog, and what the
    /// server says goes into the transcript.
    pub open spec fn during_release(self, seen: ReleaseSeen, now: u64) -> SessionView {
        match seen {
            ReleaseSeen::Chunk(_, level) => self.noted(level, now),
            ReleaseSeen::Read(Some(ev)) => self.heard(ev),
            _ => self,
        }
    }
}

impl Release {
    /// The event belongs to the step that was given last.
    pub open spec fn expects(self, seen: ReleaseSeen) -> bool {
        match self {
            Release::Draining => seen is Chunk || seen is NoChunk,
            Release::Sending => seen is Sent,
            Release::EndingTurn => seen is TurnEnded,
            Release::EndingAudio => seen is AudioEnded,
            Release::Reading(_) => seen is Read,
            Release::Over => false,
        }
    }

    /// The grace period after a read.
    pub open spec fn grace_after(self, read: Option<EventView>, now: u64) -> Grace {
        match read {
            Some(ev) => self->Reading_0.after(ev, now),
            None => self->Reading_0,
        }
    }

    /// What follows an event.
    pub open spec fn reply(self, seen: ReleaseSeen, now: u64) -> (Release, ReleaseAct) {
        match seen {
            ReleaseSeen::Chunk(chunk, level) => if level.bits >= LEVEL_SILENCE {
                (Release::Sending, ReleaseAct::Send(chunk))
            } else {
                (Release::Draining, ReleaseAct::TakeChunk)
            },
            ReleaseSeen::NoChunk => (Release::EndingTurn, ReleaseAct::EndTurn),
            ReleaseSeen::Sent => (Release::Draining, ReleaseAct::TakeChunk),
            ReleaseSeen::TurnEnded => (Release::EndingAudio, ReleaseAct::EndAudio),
            ReleaseSeen::AudioEnded => (
                Release::Reading(Grace { started: now, closed: false, spoke: None }),
                ReleaseAct::Read,
            ),
            ReleaseSeen::Read(read) => {
                let grace = self.grace_after(read, now);
                if grace.over(now) {
                    (Release::Over, ReleaseAct::Finish)
                } else {
                    (Release::Reading(grace), ReleaseAct::Read)
                }
            },
        }
    }

    /// A release begins with what is still buffered.
    pub fn start() -> (r: (Release, ReleaseStep))
        ensures
            r.0 is Draining,
            r.1@ == ReleaseAct::TakeChunk,
    {
        (Release::Draining, ReleaseStep::TakeChunk)
    }

    /// Takes what came of the last step and gives the next one.
    pub fn next(&mut self, session: &mut Session, ev: ReleaseEvent, now: u64) -> (step:
        ReleaseStep)
        requires
            old(session).wf(),
            old(self).expects(ev@),
        ensures
            final(session).wf(),
            final(session)@ == old(session)@.during_release(ev@, now),
            (*final(self), step@) == old(self).reply(ev@, now),
            match ev {
                ReleaseEvent::Chunk(chunk, level) => {
                    &&& level.bits >= LEVEL_SILENCE ==> step == ReleaseStep::Send(chunk)
                    &&& level.bits < LEVEL_SILENCE ==> step is TakeChunk
                },
                ReleaseEvent::NoChunk => step is EndTurn,
                ReleaseEvent::Sent => step is TakeChunk,
                ReleaseEvent::TurnEnded => step is EndAudio,
                ReleaseEvent::AudioEnded => step is Read,
                ReleaseEvent::Read(_) => step is Read || step is Finish,
            },
            match ev {
                ReleaseEvent::Read(Some(heard)) => {
                    &&& heard.finalized matches Some(t) ==> {
                        &&& final(session).finals@.len() == old(session).finals@.len() + 1
                        &&& final(session).finals@.last()@ == t@
                    }
                    &&& heard.finalized is None ==> final(session).finals == old(session).finals
                    &&& heard.interim matches Some(t) ==> final(session).interim@ == t@
                    &&& heard.interim is None ==> final(session).interim == old(session).interim
                },
                _ => {
                    &&& crate::text::views(final(session).finals@) == crate::text::views(
                        old(session).finals@,
                    )
                    &&& final(session).interim@ == old(session).interim@
                },
            },
    {
        match ev {
            ReleaseEvent::Chunk(chunk, level) => {
                if session.on_chunk(level, now) {
                    *self = Release::Sending;
                    ReleaseStep::Send(chunk)
                } else {
                    *self = Release::Draining;
                    ReleaseStep::TakeChunk
                }
            },
            ReleaseEvent::NoChunk => {
                *self = Release::EndingTurn;
                ReleaseStep::EndTurn
            },
            ReleaseEvent::Sent => {
                *self = Release::Draining;
                ReleaseStep::TakeChunk
            },
            ReleaseEvent::TurnEnded => {
                *self = Release::EndingAudio;
                ReleaseStep::EndAudio
            },
            ReleaseEvent::AudioEnded => {
                *self = Release::Reading(Grace::new(now));
                ReleaseStep::Read
            },
            ReleaseEvent::Read(read) => {
                let mut grace = match self {
                    Release::Reading(g) => *g,
                    _ => Grace::new(now),
                };
                if let Some(ev) = read {
                    grace.note(&ev, now);
                    session.hear(ev);
                }
                if grace.done(now) {
                    *self = Release::Over;
                    ReleaseStep::Finish
                } else {
                    *self = Release::Reading(grace);
                    ReleaseStep::Read
                }
            },
        }
    }

    /// How far a release has come after several events, each at its time.
    pub open spec fn after(self, seen: Seq<(ReleaseSeen, u64)>) -> Release
        decreases seen.len(),
    {
        if seen.len() == 0 {
            self
        } else {
            self.after(seen.drop_last()).reply(seen.last().0, seen.last().1).0
        }
    }

    /// Every event belongs to the step before it.
    pub open spec fn follows(self, seen: Seq<(ReleaseSeen, u64)>) -> bool
        decreases seen.len(),
    {
        seen.len() > 0 ==> {
            &&& self.follows(seen.drop_last())
            &&& self.after(seen.drop_last()).expects(seen.last().0)
        }
    }

    /// The steps that several events give.
    pub open spec fn acts(self, seen: Seq<(ReleaseSeen, u64)>) -> Seq<ReleaseAct>
        decreases seen.len(),
    {
        if seen.len() == 0 {
            Seq::empty()
        } else {
            self.acts(seen.drop_last()).push(
                self.after(seen.drop_last()).reply(seen.last().0, seen.last().1).1,
            )
        }
    }

    /// No audio follows the end of the turn: after the step that ends it, no
    /// chunk is taken or sent, and the turn is not ended again. The end of the
    /// audio stream comes right after the end of the turn.
    pub proof fn law_release_keeps_its_order(seen: Seq<(ReleaseSeen, u64)>, i: int, j: int)
        requires
            Release::Draining.follows(seen),
            0 <= i < j < seen.len(),
        ensures
            ({
                let acts = Release::Draining.acts(seen);
                &&& acts.len() == seen.len()
                &&& acts[i] is EndTurn ==> !(acts[j] is TakeChunk || acts[j] is Send || acts[j]
                    is EndTurn)
                &&& acts[j] is EndAudio ==> acts[j - 1] is EndTurn
                &&& acts[j] is Read || acts[j] is Finish ==> acts[j - 1] is EndAudio || acts[j - 1]
                    is Read
                &&& !(acts[i] is Finish)
            }),
        decreases seen.len(),
    {
        let front = seen.drop_last();
        Release::lemma_release_phase(front, i);
        Release::lemma_release_phase(seen, i);
        if j < front.len() {
            Release::law_release_keeps_its_order(front, i, j);
        }
    }

    /// A release neither starts with the end of the audio stream nor reads
    /// before it.
    pub proof fn law_release_starts_with_the_audio(seen: Seq<(ReleaseSeen, u64)>)
        requires
            Release::Draining.follows(seen),
            seen.len() > 0,
        ensures
            ({
                let first = Release::Draining.acts(seen)[0];
                first is TakeChunk || first is Send || first is EndTurn
            }),
        decreases seen.len(),
    {
        Release::lemma_release_phase(seen, 0);
        if seen.len() > 1 {
            Release::law_release_starts_with_the_audio(seen.drop_last());
            Release::lemma_release_phase(seen.drop_last(), 0);
        }
    }

    proof fn lemma_release_phase(seen: Seq<(ReleaseSeen, u64)>, i: int)
        requires
            Release::Draining.follows(seen),
        ensures
            ({
                let phase = Release::Draining.after(seen);
                let acts = Release::Draining.acts(seen);
                &&& acts.len() == seen.len()
                &&& 0 <= i < acts.len() && acts[i] is EndTurn ==> !(phase is Draining) && !(
                phase is Sending)
                &&& 0 <= i < acts.len() - 1 && acts[i] is EndTurn ==> !(phase is EndingTurn)
                &&& 0 <= i < acts.len() && acts[i] is Finish ==> phase is Over
                &&& seen.len() == 0 ==> phase is Draining
                &&& seen.len() > 0 ==> match acts.last() {
                    ReleaseAct::TakeChunk => phase is Draining,
                    ReleaseAct::Send(_) => phase is Sending,
                    ReleaseAct::EndTurn => phase is EndingTurn,
                    ReleaseAct::EndAudio => phase is EndingAudio,
                    ReleaseAct::Read => phase is Reading,
                    ReleaseAct::Finish => phase is Over,
                }
            }),
        decreases seen.len(),
    {
        if seen.len() > 0 {
            Release::lemma_release_phase(seen.drop_last(), i);
        }
    }

    /// What a release sends: of the chunks that were left those that are loud
    /// enough, each once, as it is and in order; then the end of the turn; then
    /// the end of the audio stream. Nothing is read before all that went out.
    pub proof fn law_release_messages(seen: Seq<(ReleaseSeen, u64)>)
        requires
            Release::Draining.follows(seen),
        ensures
            release_messages(Release::Draining.acts(seen)) == gated(chunks_in(seen))
                + endings(Release::Draining.after(seen)),
        decreases seen.len(),
    {
        let acts = Release::Draining.acts(seen);
        let phase = Release::Draining.after(seen);
        if seen.len() == 0 {
            assert(gated(chunks_in(seen)) + endings(phase) =~= Seq::empty());
        } else {
            let front = seen.drop_last();
            Release::law_release_messages(front);
            assert(acts.drop_last() =~= Release::Draining.acts(front));
            let before = Release::Draining.after(front);
            match seen.last().0 {
                ReleaseSeen::Chunk(chunk, level) => {
                    assert(chunks_in(seen).drop_last() =~= chunks_in(front));
                },
                _ => {},
            }
            assert(release_messages(acts) =~= gated(chunks_in(seen)) + endings(phase));
        }
    }

    /// A release always ends: once the turn and the stream have ended, a read
    /// after the cap of the grace period is the last one, whatever was said.
    pub proof fn law_release_ends(self, read: Option<EventView>, now: u64)
        requires
            self is Reading,
            crate::session::since(now, self->Reading_0.started) >= crate::session::GRACE_CAP_MS,
        ensures
            self.reply(ReleaseSeen::Read(read), now) == (Release::Over, ReleaseAct::Finish),
    {
    }
}

/// What the steps of a release send.
pub open spec fn release_messages(acts: Seq<ReleaseAct>) -> Seq<Message>
    decreases acts.len(),
{
    if acts.len() == 0 {
        Seq::empty()
    } else {
        let rest = release_messages(acts.drop_last());
        match acts.last() {
            ReleaseAct::Send(chunk) => rest.push(Message::Audio(chunk)),
            ReleaseAct::EndTurn => rest.push(Message::TurnEnd),
            ReleaseAct::EndAudio => rest.push(Message::AudioEnd),
            _ => rest,
        }
    }
}

/// The chunks that were taken, with their levels.
pub open spec fn chunks_in(seen: Seq<(ReleaseSeen, u64)>) -> Seq<(Seq<i16>, Level)>
    decreases seen.len(),
{
    if seen.len() == 0 {
        Seq::empty()
    } else {
        let rest = chunks_in(seen.drop_last());
        match seen.last().0 {
            ReleaseSeen::Chunk(chunk, level) => rest.push((chunk, level)),
            _ => rest,
        }
    }
}

/// The markers that went out by a phase.
pub open spec fn endings(phase: Release) -> Seq<Message> {
    match phase {
        Release::Draining => Seq::empty(),
        Release::Sending => Seq::empty(),
        Release::EndingTurn => seq![Message::TurnEnd],
        Release::EndingAudio => seq![Message::TurnEnd, Message::AudioEnd],
        Release::Reading(_) => seq![Message::TurnEnd, Message::AudioEnd],
        Release::Over => seq![Message::TurnEnd, Message::AudioEnd],
    }
}

/// Everything that an utterance sends, where the sends succeed: the setup, the
/// marker that opens the turn, the chunks that are loud enough, those taken
/// while recording and then those left at the release, in the order in which
/// they were captured, then the end of the turn and the end of the stream.
pub proof fn law_utterance_messages(
    session: SessionView,
    pressed: Seq<PressSeen>,
    streamed: Seq<(Seq<i16>, Level)>,
    released: Seq<(ReleaseSeen, u64)>,
)
    requires
        Press::Clearing.follows(session, pressed),
        pressed.len() > 0,
        Press::Clearing.acts(session, pressed).last() is Listen,
        Release::Draining.follows(released),
        Release::Draining.after(released) is Over,
    ensures
        press_messages(Press::Clearing.acts(session, pressed)) + gated(streamed)
            + release_messages(Release::Draining.acts(released)) == seq![
            Message::Setup(session.setup()),
            Message::TurnStart,
        ] + gated(streamed + chunks_in(released)) + seq![Message::TurnEnd, Message::AudioEnd],
{
    Press::law_press_messages(session, pressed);
    Release::law_release_messages(released);
    law_gate_composes(streamed, chunks_in(released));
    let head = seq![Message::Setup(session.setup()), Message::TurnStart];
    let tail = seq![Message::TurnEnd, Message::AudioEnd];
    assert(head + gated(streamed) + (gated(chunks_in(released)) + tail) =~= head + (gated(streamed)
        + gated(chunks_in(released))) + tail);
}

// ---------------------------------------------------------------------------
// What an utterance promises
// ---------------------------------------------------------------------------
impl SessionView {
    /// A press asks for the mode of the settings: the setup that it sends ends
    /// with VERBATIM exactly where the canonical mode of the settings is
    /// verbatim, and with SMART otherwise. A mode that is chosen in the menu is
    /// the one that the next press asks for, also where it is chosen while an
    /// utterance runs.
    pub proof fn law_press_asks_for_the_chosen_mode(self, mode: Seq<char>)
        ensures
            transcribe::mode_for(self.cfg.mode) == "verbatim"@ <==>
                ",\"mode\":\"VERBATIM\"}}}"@.is_suffix_of(self.setup()),
            transcribe::mode_for(self.cfg.mode) == "smart"@ <==>
                ",\"mode\":\"SMART\"}}}"@.is_suffix_of(self.setup()),
            transcribe::mode_for(mode) == "verbatim"@ <==>
                ",\"mode\":\"VERBATIM\"}}}"@.is_suffix_of(self.with_mode(mode).setup()),
            transcribe::mode_for(mode) == "smart"@ <==>
                ",\"mode\":\"SMART\"}}}"@.is_suffix_of(self.with_mode(mode).setup()),
            self.with_mode(mode).finished().setup() == self.with_mode(mode).setup(),
    {
        transcribe::law_setup_asks_for_the_mode(self.cfg.language_codes, self.cfg.mode);
        transcribe::law_setup_asks_for_the_mode(
            self.cfg.language_codes,
            transcribe::mode_for(mode),
        );
        transcribe::law_mode_is_stable(mode);
    }

    /// Read as JSON, the setup of a press lists the language codes of the
    /// settings, all of them and in order, and names their mode.
    pub proof fn law_press_carries_the_settings(self)
        ensures
            ({
                let read = crate::json::read(self.setup());
                let how = (read->0).0->Object_0[0].1->Object_0[2].1;
                let codes = how->Object_0[0].1;
                &&& read is Some
                &&& codes is List
                &&& codes->List_0.len() == self.cfg.language_codes.len()
                &&& forall|i: int|
                    0 <= i < self.cfg.language_codes.len() ==> #[trigger] codes->List_0[i]
                        == crate::json::Tree::Text(self.cfg.language_codes[i])
                &&& how->Object_0[1].1 == crate::json::Tree::Text(
                    if transcribe::mode_for(self.cfg.mode) == "verbatim"@ {
                        "VERBATIM"@
                    } else {
                        "SMART"@
                    },
                )
            }),
    {
        transcribe::law_setup_says_what_was_chosen(self.cfg.language_codes, self.cfg.mode);
    }

    /// Until the answer to the setup was waited for, a press changes nothing;
    /// then the utterance runs, and nothing that was said before is in it.
    pub proof fn law_press_changes_the_session_last(self, seen: PressSeen)
        ensures
            !(seen is Reply) ==> self.during_press(seen) == self,
            seen is Reply ==> self.during_press(seen).recording && self.during_press(
                seen,
            ).finals.len() == 0 && self.during_press(seen).interim.len() == 0,
            self.during_press(seen).cfg == self.cfg,
    {
    }

    /// What is read during a release goes into the transcript, whether the
    /// server closes with it or not; a chunk feeds the watchdog; nothing else
    /// changes anything.
    pub proof fn law_release_hears_every_frame(self, ev: EventView, level: Level, chunk: Seq<i16>, now: u64)
        ensures
            ({
                let after = self.during_release(ReleaseSeen::Read(Some(ev)), now);
                &&& ev.finalized matches Some(t) ==> after.finals == self.finals + seq![t]
                &&& ev.finalized is None ==> after.finals == self.finals
                &&& ev.interim matches Some(t) ==> after.interim == t
                &&& ev.interim is None ==> after.interim == self.interim
                &&& after == (SessionView { finals: after.finals, interim: after.interim, ..self })
            }),
            ({
                let after = self.during_release(ReleaseSeen::Chunk(chunk, level), now);
                &&& after.finals == self.finals
                &&& after.interim == self.interim
                &&& after.cfg == self.cfg
                &&& after.recording == self.recording
                &&& after.last_take == now
                &&& level.bits != 0 ==> after.silent_takes == 0
            }),
            self.during_release(ReleaseSeen::Read(None), now) == self,
            self.during_release(ReleaseSeen::NoChunk, now) == self,
            self.during_release(ReleaseSeen::Sent, now) == self,
            self.during_release(ReleaseSeen::TurnEnded, now) == self,
            self.during_release(ReleaseSeen::AudioEnded, now) == self,
    {
        self.law_what_is_said_is_kept(ev, true);
    }

    /// After several events of a release, each at its time.
    pub open spec fn released(self, seen: Seq<(ReleaseSeen, u64)>) -> SessionView
        decreases seen.len(),
    {
        if seen.len() == 0 {
            self
        } else {
            self.released(seen.drop_last()).during_release(seen.last().0, seen.last().1)
        }
    }

    /// No text of a release is lost: whatever else happens, the final texts
    /// afterwards are those from before followed by every final text that was
    /// read, in order, that of a closing frame included.
    pub proof fn law_release_loses_no_final_text(self, seen: Seq<(ReleaseSeen, u64)>)
        ensures
            self.released(seen).finals == self.finals + seen.filter(
                |e: (ReleaseSeen, u64)|
                    e.0 is Read && e.0->Read_0 is Some && (e.0->Read_0->0).finalized is Some,
            ).map_values(|e: (ReleaseSeen, u64)| (e.0->Read_0->0).finalized->0),
        decreases seen.len(),
    {
        reveal(Seq::filter);
        let has = |e: (ReleaseSeen, u64)|
            e.0 is Read && e.0->Read_0 is Some && (e.0->Read_0->0).finalized is Some;
        let get = |e: (ReleaseSeen, u64)| (e.0->Read_0->0).finalized->0;
        if seen.len() == 0 {
            assert(self.finals + seen.filter(has).map_values(get) =~= self.finals);
        } else {
            let front = seen.drop_last();
            self.law_release_loses_no_final_text(front);
            if has(seen.last()) {
                assert(seen.filter(has) == front.filter(has).push(seen.last()));
                assert(front.filter(has).push(seen.last()).map_values(get) =~= front.filter(
                    has,
                ).map_values(get).push(get(seen.last())));
            }
            assert(self.released(seen).finals =~= self.finals + seen.filter(has).map_values(get));
        }
    }

    /// The preview after a release is the last one that was read during it, also
    /// where the server closed with it; where none was read, it is the one from
    /// before.
    pub proof fn law_release_keeps_the_last_preview(self, seen: Seq<(ReleaseSeen, u64)>, i: int)
        requires
            -1 <= i < seen.len(),
            i >= 0 ==> seen[i].0 is Read && seen[i].0->Read_0 is Some && (
            seen[i].0->Read_0->0).interim is Some,
            forall|k: int|
                i < k < seen.len() ==> !((#[trigger] seen[k]).0 is Read && seen[k].0->Read_0 is Some
                    && (seen[k].0->Read_0->0).interim is Some),
        ensures
            i >= 0 ==> self.released(seen).interim == (seen[i].0->Read_0->0).interim->0,
            i < 0 ==> self.released(seen).interim == self.interim,
        decreases seen.len(),
    {
        if seen.len() > 0 && i < seen.len() - 1 {
            let front = seen.drop_last();
            let last = seen[seen.len() - 1];
            assert(!(last.0 is Read && last.0->Read_0 is Some && (
            last.0->Read_0->0).interim is Some));
            assert forall|k: int| i < k < front.len() implies !((#[trigger] front[k]).0 is Read
                && front[k].0->Read_0 is Some && (front[k].0->Read_0->0).interim is Some) by {
                assert(front[k] == seen[k]);
            }
            self.law_release_keeps_the_last_preview(front, i);
        }
    }
}

/// Exactly the chunks at or above the threshold are sent, each once, as it is
/// and in its place.
pub proof fn law_loud_chunks_are_sent(chunks: Seq<(Seq<i16>, Level)>)
    ensures
        gated(chunks) == chunks.filter(
            |c: (Seq<i16>, Level)| c.1.bits >= LEVEL_SILENCE,
        ).map_values(|c: (Seq<i16>, Level)| Message::Audio(c.0)),
    decreases chunks.len(),
{
    reveal(Seq::filter);
    let loud = |c: (Seq<i16>, Level)| c.1.bits >= LEVEL_SILENCE;
    let sent = |c: (Seq<i16>, Level)| Message::Audio(c.0);
    if chunks.len() == 0 {
        assert(gated(chunks) =~= chunks.filter(loud).map_values(sent));
    } else {
        let front = chunks.drop_last();
        law_loud_chunks_are_sent(front);
        if loud(chunks.last()) {
            assert(front.filter(loud).push(chunks.last()).map_values(sent) =~= front.filter(
                loud,
            ).map_values(sent).push(sent(chunks.last())));
        }
        assert(gated(chunks) =~= chunks.filter(loud).map_values(sent));
    }
}

impl Press {
    /// What a press asks for, step by step: the address with the key, the setup
    /// of the settings, the marker, the answer; and a failure is told with its
    /// reason.
    pub proof fn law_press_steps(self, session: SessionView, e: Seq<char>, answer: Option<Seq<char>>)
        ensures
            self.reply(session, PressSeen::Cleared).1 == PressAct::Connect(
                transcribe::WS_URL@ + "?key="@ + session.cfg.api_key,
            ),
            self.reply(session, PressSeen::Connected(Ok(()))).1 == PressAct::SendSetup(
                transcribe::setup_message(session.cfg.language_codes, session.cfg.mode),
            ),
            self.reply(session, PressSeen::SetupSent(Ok(()))).1 == PressAct::StartTurn,
            self.reply(session, PressSeen::TurnStarted).1 == PressAct::ReadReply,
            self.reply(session, PressSeen::Connected(Err(e))).1 matches PressAct::Failed(pill)
                && pill.mode == Mode::Idle && pill.title == "Utterly — connect failed: "@ + e,
            self.reply(session, PressSeen::SetupSent(Err(e))).1 matches PressAct::Failed(pill)
                && pill.mode == Mode::Idle && pill.title == "Utterly — connect failed: "@ + e,
            self.reply(session, PressSeen::Reply(answer)).1 matches PressAct::Listen(said, pill)
                && pill.mode == Mode::Listening && pill.level.bits == 0 && pill.title
                == "Utterly ● Listening… (release Ctrl+Space to transcribe)"@ && said
                == crate::session::setup_reply_of(answer),
    {
    }
}

impl Release {
    /// A read during the wait ends it exactly where the wait is over with what
    /// was read, and the wait goes on from there otherwise; it begins with the
    /// end of the audio stream, open and without a final text.
    pub proof fn law_release_waits(grace: Grace, ev: EventView, now: u64)
        ensures
            ({
                let reading = Release::Reading(grace);
                let after = reading.reply(ReleaseSeen::Read(Some(ev)), now);
                &&& after.1 is Finish <==> grace.after(ev, now).over(now)
                &&& after.1 is Finish || after.1 is Read
                &&& after.1 is Read ==> after.0 == Release::Reading(grace.after(ev, now))
                &&& ev.closed ==> after.1 is Finish
            }),
            ({
                let after = Release::Reading(grace).reply(ReleaseSeen::Read(None), now);
                &&& after.1 is Finish <==> grace.over(now)
                &&& after.1 is Read ==> after.0 == Release::Reading(grace)
            }),
            ({
                let begun = Release::EndingAudio.reply(ReleaseSeen::AudioEnded, now);
                &&& begun.1 is Read
                &&& begun.0 matches Release::Reading(g) && g.started == now && !g.closed && g.spoke
                    is None
            }),
    {
    }

    /// The steps of a release: a loud chunk is sent as it is and a quiet one
    /// passed over, then the turn ends, then the stream.
    pub proof fn law_release_steps(self, chunk: Seq<i16>, level: Level, now: u64)
        ensures
            level.bits >= LEVEL_SILENCE ==> self.reply(ReleaseSeen::Chunk(chunk, level), now) == (
                Release::Sending,
                ReleaseAct::Send(chunk),
            ),
            level.bits < LEVEL_SILENCE ==> self.reply(ReleaseSeen::Chunk(chunk, level), now) == (
                Release::Draining,
                ReleaseAct::TakeChunk,
            ),
            self.reply(ReleaseSeen::Sent, now) == (Release::Draining, ReleaseAct::TakeChunk),
            self.reply(ReleaseSeen::NoChunk, now) == (Release::EndingTurn, ReleaseAct::EndTurn),
            self.reply(ReleaseSeen::TurnEnded, now) == (
                Release::EndingAudio,
                ReleaseAct::EndAudio,
            ),
    {
    }
}

/// Every event and every step of a press says what it holds, as it is.
pub proof fn law_press_says_what_it_holds(
    e: String,
    answer: Option<String>,
    reply: SetupReply,
    pill: PillUpdate,
)
    ensures
        PressEvent::Cleared@ == PressSeen::Cleared,
        PressEvent::Connected(Ok(()))@ == PressSeen::Connected(Ok(())),
        PressEvent::Connected(Err(e))@ == PressSeen::Connected(Err(e@)),
        PressEvent::SetupSent(Ok(()))@ == PressSeen::SetupSent(Ok(())),
        PressEvent::SetupSent(Err(e))@ == PressSeen::SetupSent(Err(e@)),
        PressEvent::TurnStarted@ == PressSeen::TurnStarted,
        PressEvent::Reply(None)@ == PressSeen::Reply(None),
        answer matches Some(line) ==> PressEvent::Reply(answer)@ == PressSeen::Reply(Some(line@)),
        PressStep::Clear@ == PressAct::Clear,
        PressStep::Connect(e)@ == PressAct::Connect(e@),
        PressStep::SendSetup(e)@ == PressAct::SendSetup(e@),
        PressStep::StartTurn@ == PressAct::StartTurn,
        PressStep::ReadReply@ == PressAct::ReadReply,
        PressStep::Listen(reply, pill)@ == PressAct::Listen(reply@, pill@),
        PressStep::Failed(pill)@ == PressAct::Failed(pill@),
{
}

/// Every event and every step of a release says what it holds, as it is; what
/// was read is all there, the text of a closing frame included.
pub proof fn law_release_says_what_it_holds(
    chunk: [i16; CHUNK],
    level: Level,
    ev: TranscriptEvent,
)
    ensures
        ReleaseEvent::Chunk(chunk, level)@ == ReleaseSeen::Chunk(chunk@, level),
        ReleaseEvent::NoChunk@ == ReleaseSeen::NoChunk,
        ReleaseEvent::Sent@ == ReleaseSeen::Sent,
        ReleaseEvent::TurnEnded@ == ReleaseSeen::TurnEnded,
        ReleaseEvent::AudioEnded@ == ReleaseSeen::AudioEnded,
        ReleaseEvent::Read(None)@ == ReleaseSeen::Read(None),
        ReleaseEvent::Read(Some(ev))@ matches ReleaseSeen::Read(Some(seen)) && {
            &&& seen.closed == ev.closed
            &&& seen.finalized is Some <==> ev.finalized is Some
            &&& ev.finalized matches Some(t) ==> seen.finalized == Some(t@)
            &&& seen.interim is Some <==> ev.interim is Some
            &&& ev.interim matches Some(t) ==> seen.interim == Some(t@)
        },
        ReleaseStep::TakeChunk@ == ReleaseAct::TakeChunk,
        ReleaseStep::Send(chunk)@ == ReleaseAct::Send(chunk@),
        ReleaseStep::EndTurn@ == ReleaseAct::EndTurn,
        ReleaseStep::EndAudio@ == ReleaseAct::EndAudio,
        ReleaseStep::Read@ == ReleaseAct::Read,
        ReleaseStep::Finish@ == ReleaseAct::Finish,
{
}

/// What a phase waits for is what comes of the step that leads to it, and a
/// phase that is over waits for nothing.
pub proof fn law_phases_wait_for_their_steps(
    session: SessionView,
    pressed: PressSeen,
    released: ReleaseSeen,
    grace: Grace,
)
    ensures
        Press::Clearing.expects(pressed) <==> pressed is Cleared,
        Press::Connecting.expects(pressed) <==> pressed is Connected,
        Press::SettingUp.expects(pressed) <==> pressed is SetupSent,
        Press::Starting.expects(pressed) <==> pressed is TurnStarted,
        Press::Verifying.expects(pressed) <==> pressed is Reply,
        !Press::Over.expects(pressed),
        Release::Draining.expects(released) <==> released is Chunk || released is NoChunk,
        Release::Sending.expects(released) <==> released is Sent,
        Release::EndingTurn.expects(released) <==> released is TurnEnded,
        Release::EndingAudio.expects(released) <==> released is AudioEnded,
        Release::Reading(grace).expects(released) <==> released is Read,
        !Release::Over.expects(released),
        ({
            let (phase, act) = Press::Clearing.reply(session, pressed);
            &&& act is Connect <==> phase is Connecting
            &&& act is SendSetup <==> phase is SettingUp
            &&& act is StartTurn <==> phase is Starting
            &&& act is ReadReply <==> phase is Verifying
            &&& act is Listen || act is Failed <==> phase is Over
        }),
{
}

impl SessionView {
    /// No text of an utterance is lost, from the press to the end of the
    /// release: its final texts are those that were read while recording and
    /// then those that were read during the release, all of them and in order,
    /// and none from before the press.
    pub proof fn law_utterance_loses_no_final_text(
        self,
        reads: Seq<Option<EventView>>,
        ev: crate::hotkey::KeyEvent,
        seen: Seq<(ReleaseSeen, u64)>,
    )
        ensures
            self.listening().streamed(reads).after_key(ev).released(seen).finals == reads.filter(
                |r: Option<EventView>| r is Some && (r->0).finalized is Some,
            ).map_values(|r: Option<EventView>| (r->0).finalized->0) + seen.filter(
                |e: (ReleaseSeen, u64)|
                    e.0 is Read && e.0->Read_0 is Some && (e.0->Read_0->0).finalized is Some,
            ).map_values(|e: (ReleaseSeen, u64)| (e.0->Read_0->0).finalized->0),
    {
        let fresh = self.listening();
        fresh.law_stream_loses_no_final_text(reads);
        fresh.streamed(reads).law_presses_and_releases_alternate(ev);
        fresh.streamed(reads).after_key(ev).law_release_loses_no_final_text(seen);
        let spoken = reads.filter(
            |r: Option<EventView>| r is Some && (r->0).finalized is Some,
        ).map_values(|r: Option<EventView>| (r->0).finalized->0);
        assert(fresh.finals + spoken =~= spoken);
    }
}

} // verus!
