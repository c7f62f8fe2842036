//! The schedule on which the server answers one heartbeat: a fixed number of
//! commands, each followed by a pause, driven one event at a time by whoever
//! owns the outgoing channel and the clock.
use vstd::prelude::*;
use crate::api::{HeartbeatRsp, HeartbeatRspView};

verus! {

/// How long the stream rests after each command it sends, in milliseconds.
pub const HEARTBEAT_PAUSE_MILLIS: u64 = 200;

/// Where a heartbeat stream stands.
#[derive(Clone, Copy, Debug, PartialEq, Eq, Structural)]
pub enum Phase {
    /// Waiting to be told that it may act (at the start, or after a pause).
    Idle,
    /// A command has been handed out and its delivery is awaited.
    AwaitingSend,
    /// Nothing more will be sent.
    Finished,
}

/// What the driver of a stream reports back.
#[derive(Clone, Copy, Debug, PartialEq, Eq, Structural)]
pub enum HeartbeatEvent {
    /// The stream may act: it has just started, or its pause is over.
    Ready,
    /// The command last handed out was delivered.
    Sent,
    /// The command last handed out could not be delivered.
    SendFailed,
}

/// What the stream asks its driver to do next.
#[derive(Clone, Debug, PartialEq, Eq)]
pub enum HeartbeatAction {
    /// Deliver this command to the agent.
    Send(HeartbeatRsp),
    /// Rest for this many milliseconds.
    Pause(u64),
    /// Close the stream.
    Finish,
}

/// An action as a value.
pub enum ActionView {
    Send(HeartbeatRspView),
    Pause(nat),
    Finish,
}

impl View for HeartbeatAction {
    type V = ActionView;

    open spec fn view(&self) -> ActionView {
        match self {
            HeartbeatAction::Send(rsp) => ActionView::Send(rsp@),
            HeartbeatAction::Pause(millis) => ActionView::Pause(*millis as nat),
            HeartbeatAction::Finish => ActionView::Finish,
        }
    }
}

/// A heartbeat stream as a value.
pub struct HeartbeatStreamView {
    /// The text that every command carries.
    pub content: Seq<char>,
    /// How many commands the stream sends in all.
    pub rounds: nat,
    /// How many commands have been delivered.
    pub sent: nat,
    pub phase: Phase,
}

impl HeartbeatStreamView {
    /// Never more delivered than planned, and a command awaited only while
    /// one is still due.
    pub open spec fn wf(self) -> bool {
        &&& self.sent <= self.rounds
        &&& self.phase == Phase::AwaitingSend ==> self.sent < self.rounds
    }

    /// A stream that has sent nothing yet.
    pub open spec fn fresh(content: Seq<char>, rounds: nat) -> HeartbeatStreamView {
        HeartbeatStreamView { content, rounds, sent: 0, phase: Phase::Idle }
    }

    /// How many more actions the stream can ask for before it is finished.
    pub open spec fn remaining(self) -> nat {
        match self.phase {
            Phase::Idle => (2 * (self.rounds - self.sent) + 1) as nat,
            Phase::AwaitingSend => (2 * (self.rounds - self.sent)) as nat,
            Phase::Finished => 0,
        }
    }
}

/// The command of round `round` (counted from zero): its type alternates
/// between 0 and 1, and it carries the stream's text.
pub open spec fn heartbeat_command(content: Seq<char>, round: nat) -> HeartbeatRspView {
    HeartbeatRspView { cmd_type: (round % 2) as int, cmd_content: content }
}

/// Command types alternate, starting from 0: the first round's command is of
/// type 0, every command is of type 0 or 1, and a round's type differs from
/// the next round's.
pub proof fn lemma_command_types_alternate(content: Seq<char>, round: nat)
    ensures
        heartbeat_command(content, round).cmd_type == 0 || heartbeat_command(
            content,
            round,
        ).cmd_type == 1,
        heartbeat_command(content, round + 1).cmd_type == 1 - heartbeat_command(
            content,
            round,
        ).cmd_type,
        heartbeat_command(content, round).cmd_content == content,
        heartbeat_command(content, 0).cmd_type == 0,
{
}

/// One step of a stream: the state after `event`, and the action it asks for.
pub open spec fn next(s: HeartbeatStreamView, event: HeartbeatEvent) -> (
    HeartbeatStreamView,
    ActionView,
) {
    match s.phase {
        Phase::Finished => (s, ActionView::Finish),
        Phase::Idle => {
            if event == HeartbeatEvent::Ready {
                if s.sent < s.rounds {
                    (
                        HeartbeatStreamView { phase: Phase::AwaitingSend, ..s },
                        ActionView::Send(heartbeat_command(s.content, s.sent)),
                    )
                } else {
                    (HeartbeatStreamView { phase: Phase::Finished, ..s }, ActionView::Finish)
                }
            } else {
                (HeartbeatStreamView { phase: Phase::Finished, ..s }, ActionView::Finish)
            }
        },
        Phase::AwaitingSend => {
            if event == HeartbeatEvent::Sent {
                (
                    HeartbeatStreamView { phase: Phase::Idle, sent: s.sent + 1, ..s },
                    ActionView::Pause(HEARTBEAT_PAUSE_MILLIS as nat),
                )
            } else {
                (HeartbeatStreamView { phase: Phase::Finished, ..s }, ActionView::Finish)
            }
        },
    }
}

/// The report of a driver that does what it is asked and never fails: a
/// command is delivered, a pause ends, and then the stream may act again.
pub open spec fn faithful_report(action: ActionView) -> HeartbeatEvent {
    match action {
        ActionView::Send(_) => HeartbeatEvent::Sent,
        _ => HeartbeatEvent::Ready,
    }
}

/// The actions a stream asks for over `steps` steps, starting with `event`,
/// when a faithful driver reports on each of them.
pub open spec fn run(s: HeartbeatStreamView, event: HeartbeatEvent, steps: nat) -> Seq<ActionView>
    decreases steps,
{
    if steps == 0 {
        Seq::empty()
    } else {
        let (s2, action) = next(s, event);
        seq![action] + run(s2, faithful_report(action), (steps - 1) as nat)
    }
}

/// The planned actions from round `first` on: each remaining command, then a
/// pause, and at last the end of the stream.
pub open spec fn schedule_from(content: Seq<char>, rounds: nat, first: nat) -> Seq<ActionView> {
    Seq::new(
        (2 * (rounds - first) + 1) as nat,
        |j: int|
            if j == 2 * (rounds - first) {
                ActionView::Finish
            } else if j % 2 == 0 {
                ActionView::Send(heartbeat_command(content, (first + j / 2) as nat))
            } else {
                ActionView::Pause(HEARTBEAT_PAUSE_MILLIS as nat)
            },
    )
}

/// The actions a stream asks for when its driver reports `events`, one
/// report per step.
pub open spec fn run_events(s: HeartbeatStreamView, events: Seq<HeartbeatEvent>) -> Seq<ActionView>
    decreases events.len(),
{
    if events.len() == 0 {
        Seq::empty()
    } else {
        let (s2, action) = next(s, events[0]);
        seq![action] + run_events(s2, events.drop_first())
    }
}

/// The commands among `actions`, in the order they were asked for.
pub open spec fn commands(actions: Seq<ActionView>) -> Seq<HeartbeatRspView>
    decreases actions.len(),
{
    if actions.len() == 0 {
        Seq::empty()
    } else {
        let first = match actions[0] {
            ActionView::Send(cmd) => seq![cmd],
            _ => Seq::empty(),
        };
        first + commands(actions.drop_first())
    }
}

/// How many commands the stream has handed out: those delivered, and the one
/// whose delivery is awaited.
pub open spec fn issued(s: HeartbeatStreamView) -> nat {
    if s.phase == Phase::AwaitingSend {
        s.sent + 1
    } else {
        s.sent
    }
}

/// Every step keeps a stream well formed.
pub proof fn lemma_next_keeps_wf(s: HeartbeatStreamView, event: HeartbeatEvent)
    requires
        s.wf(),
    ensures
        next(s, event).0.wf(),
{
}

/// A finished stream stays finished and asks for nothing but its end.
pub proof fn lemma_finished_is_final(s: HeartbeatStreamView, event: HeartbeatEvent)
    requires
        s.phase == Phase::Finished,
    ensures
        next(s, event) == (s, ActionView::Finish),
{
}

/// A stream always ends: every report to an unfinished stream lowers the
/// number of actions it can still ask for.
pub proof fn lemma_next_makes_progress(s: HeartbeatStreamView, event: HeartbeatEvent)
    requires
        s.wf(),
        s.phase != Phase::Finished,
    ensures
        next(s, event).0.remaining() < s.remaining(),
{
}

/// A failed delivery ends the stream: nothing more is sent, whatever the
/// driver reports afterwards.
pub proof fn lemma_failed_delivery_ends(s: HeartbeatStreamView, events: Seq<HeartbeatEvent>)
    requires
        s.phase == Phase::AwaitingSend,
    ensures
        next(s, HeartbeatEvent::SendFailed).1 == ActionView::Finish,
        next(s, HeartbeatEvent::SendFailed).0.phase == Phase::Finished,
        run_events(next(s, HeartbeatEvent::SendFailed).0, events) == Seq::new(
            events.len(),
            |i: int| ActionView::Finish,
        ),
        commands(run_events(next(s, HeartbeatEvent::SendFailed).0, events)).len() == 0,
{
    lemma_finished_runs(next(s, HeartbeatEvent::SendFailed).0, events);
}

/// From a finished stream, every report is answered with the end.
proof fn lemma_finished_runs(s: HeartbeatStreamView, events: Seq<HeartbeatEvent>)
    requires
        s.phase == Phase::Finished,
    ensures
        run_events(s, events) == Seq::new(events.len(), |i: int| ActionView::Finish),
        commands(run_events(s, events)).len() == 0,
    decreases events.len(),
{
    if events.len() > 0 {
        lemma_finished_runs(s, events.drop_first());
        let rest = run_events(s, events.drop_first());
        assert(run_events(s, events) =~= seq![ActionView::Finish] + rest);
        assert(run_events(s, events) =~= Seq::new(events.len(), |i: int| ActionView::Finish));
        assert((seq![ActionView::Finish] + rest).drop_first() =~= rest);
    }
}

/// Whatever its driver reports, a stream never hands out more commands than
/// planned, and they come in round order: the `i`-th command it asks for is
/// the command of round `issued + i`.
pub proof fn lemma_commands_in_round_order(s: HeartbeatStreamView, events: Seq<HeartbeatEvent>)
    requires
        s.wf(),
    ensures
        issued(s) + commands(run_events(s, events)).len() <= s.rounds,
        forall|i: int|
            0 <= i < commands(run_events(s, events)).len() ==> #[trigger] commands(
                run_events(s, events),
            )[i] == heartbeat_command(s.content, (issued(s) + i) as nat),
    decreases events.len(),
{
    if events.len() > 0 {
        let (s2, action) = next(s, events[0]);
        let rest = run_events(s2, events.drop_first());
        let all = run_events(s, events);
        assert(all == seq![action] + rest);
        assert(all.drop_first() =~= rest);
        lemma_next_keeps_wf(s, events[0]);
        if s2.phase == Phase::Finished {
            lemma_finished_runs(s2, events.drop_first());
        } else {
            lemma_commands_in_round_order(s2, events.drop_first());
        }
        match action {
            ActionView::Send(cmd) => {
                assert(commands(all) =~= seq![cmd] + commands(rest));
            },
            _ => {
                assert(commands(all) =~= commands(rest));
            },
        }
    }
}

/// Driven by a driver that never fails, a fresh stream asks for exactly its
/// planned schedule: the command of each round, each followed by a pause, and
/// then its end.
pub proof fn lemma_heartbeat_schedule(content: Seq<char>, rounds: nat)
    ensures
        run(HeartbeatStreamView::fresh(content, rounds), HeartbeatEvent::Ready, 2 * rounds + 1)
            == schedule_from(content, rounds, 0),
        schedule_from(content, rounds, 0).len() == 2 * rounds + 1,
        forall|i: int|
            0 <= i < rounds ==> {
                &&& #[trigger] schedule_from(content, rounds, 0)[2 * i] == ActionView::Send(
                    heartbeat_command(content, i as nat),
                )
                &&& schedule_from(content, rounds, 0)[2 * i + 1] == ActionView::Pause(
                    HEARTBEAT_PAUSE_MILLIS as nat,
                )
            },
        schedule_from(content, rounds, 0)[2 * rounds as int] == ActionView::Finish,
{
    lemma_schedule_from(content, rounds, 0);
    assert forall|i: int| 0 <= i < rounds implies {
        &&& #[trigger] schedule_from(content, rounds, 0)[2 * i] == ActionView::Send(
            heartbeat_command(content, i as nat),
        )
        &&& schedule_from(content, rounds, 0)[2 * i + 1] == ActionView::Pause(
            HEARTBEAT_PAUSE_MILLIS as nat,
        )
    } by {
        assert((2 * i) % 2 == 0);
        assert((2 * i) / 2 == i);
        assert((2 * i + 1) % 2 == 1);
    }
}

/// From round `first` on, an idle stream driven faithfully asks for the rest
/// of its schedule.
proof fn lemma_schedule_from(content: Seq<char>, rounds: nat, first: nat)
    requires
        first <= rounds,
    ensures
        run(
            HeartbeatStreamView { content, rounds, sent: first, phase: Phase::Idle },
            HeartbeatEvent::Ready,
            (2 * (rounds - first) + 1) as nat,
        ) == schedule_from(content, rounds, first),
    decreases rounds - first,
{
    let s = HeartbeatStreamView { content, rounds, sent: first, phase: Phase::Idle };
    let steps = (2 * (rounds - first) + 1) as nat;
    if first == rounds {
        let s2 = HeartbeatStreamView { phase: Phase::Finished, ..s };
        assert(run(s2, HeartbeatEvent::Ready, 0) == Seq::<ActionView>::empty());
        assert(run(s, HeartbeatEvent::Ready, 1) =~= schedule_from(content, rounds, first));
    } else {
        let s1 = HeartbeatStreamView { phase: Phase::AwaitingSend, ..s };
        let s2 = HeartbeatStreamView { content, rounds, sent: first + 1, phase: Phase::Idle };
        let send = ActionView::Send(heartbeat_command(content, first));
        let pause = ActionView::Pause(HEARTBEAT_PAUSE_MILLIS as nat);
        lemma_schedule_from(content, rounds, first + 1);
        let tail = run(s2, HeartbeatEvent::Ready, (steps - 2) as nat);
        assert(run(s1, HeartbeatEvent::Sent, (steps - 1) as nat) == seq![pause] + tail);
        assert(run(s, HeartbeatEvent::Ready, steps) == seq![send] + (seq![pause] + tail));
        let expected = schedule_from(content, rounds, first);
        let later = schedule_from(content, rounds, first + 1);
        assert forall|j: int| 0 <= j < expected.len() implies #[trigger] expected[j] == (seq![
            send,
        ] + (seq![pause] + later))[j] by {
            if j >= 2 {
                assert((j - 2) % 2 == j % 2);
                assert((first + 1 + (j - 2) / 2) == first + j / 2);
            }
        }
        assert(run(s, HeartbeatEvent::Ready, steps) =~= expected);
    }
}

/// A live heartbeat stream.
pub struct HeartbeatStream {
    content: String,
    rounds: u32,
    sent: u32,
    phase: Phase,
}

impl View for HeartbeatStream {
    type V = HeartbeatStreamView;

    closed spec fn view(&self) -> HeartbeatStreamView {
        HeartbeatStreamView {
            content: self.content@,
            rounds: self.rounds as nat,
            sent: self.sent as nat,
            phase: self.phase,
        }
    }
}

impl HeartbeatStream {
    #[verifier::type_invariant]
    spec fn inv(self) -> bool {
        self@.wf()
    }

    /// A stream that will send `rounds` commands carrying `content`.
    pub fn new(content: String, rounds: u32) -> (stream: HeartbeatStream)
        ensures
            stream@ == HeartbeatStreamView::fresh(content@, rounds as nat),
    {
        HeartbeatStream { content, rounds, sent: 0, phase: Phase::Idle }
    }

    /// Whether the stream has ended.
    pub fn is_finished(&self) -> (finished: bool)
        ensures
            finished == (self@.phase == Phase::Finished),
    {
        self.phase == Phase::Finished
    }

    /// How many commands have been delivered so far.
    pub fn sent(&self) -> (sent: u32)
        ensures
            sent == self@.sent,
    {
        self.sent
    }

    /// Takes the driver's report and returns the next thing to do.
    pub fn step(&mut self, event: HeartbeatEvent) -> (action: HeartbeatAction)
        ensures
            (final(self)@, action@) == next(old(self)@, event),
            final(self)@.wf(),
    {
        proof {
            use_type_invariant(&*self);
        }
        let action = match self.phase {
            Phase::Finished => HeartbeatAction::Finish,
            Phase::Idle => {
                if event == HeartbeatEvent::Ready && self.sent < self.rounds {
                    self.phase = Phase::AwaitingSend;
                    let round = self.sent;
                    HeartbeatAction::Send(heartbeat_response(&self.content, round))
                } else {
                    self.phase = Phase::Finished;
                    HeartbeatAction::Finish
                }
            },
            Phase::AwaitingSend => {
                if event == HeartbeatEvent::Sent {
                    self.phase = Phase::Idle;
                    self.sent = self.sent + 1;
                    HeartbeatAction::Pause(HEARTBEAT_PAUSE_MILLIS)
                } else {
                    self.phase = Phase::Finished;
                    HeartbeatAction::Finish
                }
            },
        };
        proof {
            use_type_invariant(&*self);
        }
        action
    }
}

/// The command of round `round`, carrying `content`.
pub fn heartbeat_response(content: &String, round: u32) -> (rsp: HeartbeatRsp)
    ensures
        rsp@ == heartbeat_command(content@, round as nat),
{
    HeartbeatRsp { cmd_type: (round % 2) as i32, cmd_content: content.clone() }
}

} // verus!
