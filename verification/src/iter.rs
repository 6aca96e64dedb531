//! The subscriber's side: what a subscription does next when it is asked
//! for events, how one pass over the engine's pending events is split, and
//! how a subscription ends.

use vstd::prelude::*;
use crate::error::Error;
use crate::event::Event;
use crate::hub::Mpv;
use crate::laws::lemma_nothing_owed_nothing_changes;
use crate::model::MpvView;
use crate::preserve::lemma_owed_wanted;
use crate::raw::{DrainPhase, RawEvent, RawKind};
use crate::request::EngineRequest;
use crate::signal::WakeSignal;

verus! {

/// Where a subscription stands in its life.
#[derive(Clone, Copy, Debug, PartialEq, Eq, Structural)]
pub enum Stage {
    /// It has not been asked for events yet.
    Fresh,
    /// It has been asked at least once.
    Active,
    /// It has ended; nothing comes of it any more.
    Disposed,
}

/// What is known of a subscription.
pub struct EventIterView {
    /// The number of the subscription.
    pub id: u64,
    pub stage: Stage,
    /// Whether it has waited for a wake-up since it last got events or
    /// polled the engine.
    pub waited: bool,
}

/// A subscription: a blocking sequence of non-empty batches of the events
/// it asked for.
#[derive(Debug)]
pub struct EventIter {
    id: u64,
    stage: Stage,
    waited: bool,
}

impl View for EventIter {
    type V = EventIterView;

    closed spec fn view(&self) -> EventIterView {
        EventIterView { id: self.id, stage: self.stage, waited: self.waited }
    }
}

/// What a subscription has to do to come by its next batch.
#[derive(Debug, PartialEq, Eq)]
pub enum Pull {
    /// The subscription has ended.
    Finished,
    /// Nothing is owed to the subscription: wait for a wake-up, then ask
    /// again.
    Wait,
    /// Poll the engine in a pass of its own.
    Drain,
    /// The batch: the events that were owed to the subscription.
    Ready(Vec<Event>),
}

/// What is known of a pass over the engine's pending events.
pub struct DrainPassView {
    pub phase: DrainPhase,
    /// The events for the polling subscription, in the order of arrival.
    pub batch: Seq<Event>,
    /// Whether the pass has queued an event for other subscriptions.
    pub deposited: bool,
}

/// One pass over the engine's pending events, made by one subscription.
#[derive(Debug)]
pub struct DrainPass {
    phase: DrainPhase,
    batch: Vec<Event>,
    deposited: bool,
}

impl View for DrainPass {
    type V = DrainPassView;

    closed spec fn view(&self) -> DrainPassView {
        DrainPassView { phase: self.phase, batch: self.batch@, deposited: self.deposited }
    }
}

impl DrainPassView {
    /// A pass before its first poll.
    pub open spec fn start() -> DrainPassView {
        DrainPassView { phase: DrainPhase::Polling, batch: Seq::empty(), deposited: false }
    }

    /// The shared state and the pass after one more answer of the engine
    /// to the subscription `caller`. An event goes to the batch when the
    /// caller wants it, and to the queue when others want it; what nobody
    /// wants is dropped unread. A pass that is over takes nothing in.
    pub open spec fn step(self, hub: MpvView, caller: u64, answer: RawEvent) -> (
        MpvView,
        DrainPassView,
    ) {
        let phase = self.phase.after(answer.spec_kind());
        if self.phase != DrainPhase::Stopped && hub.awaits(answer) {
            let event = answer.decoded();
            (
                hub.deposited(caller, event),
                DrainPassView {
                    phase,
                    batch: if hub.wants(caller, event.template()) {
                        self.batch.push(event)
                    } else {
                        self.batch
                    },
                    deposited: self.deposited || hub.claimants(caller, event.template()).len() > 0,
                },
            )
        } else {
            (hub, DrainPassView { phase, ..self })
        }
    }

    /// The shared state and the pass after a run of answers, taken in
    /// order.
    pub open spec fn run(self, hub: MpvView, caller: u64, answers: Seq<RawEvent>) -> (
        MpvView,
        DrainPassView,
    )
        decreases answers.len(),
    {
        if answers.len() == 0 {
            (hub, self)
        } else {
            let (hub_before, pass_before) = self.run(hub, caller, answers.drop_last());
            pass_before.step(hub_before, caller, answers.last())
        }
    }
}

/// How many of the answers a pass in `phase` asks for: it stops asking
/// once it is over, or when the answers run out.
pub open spec fn polls(phase: DrainPhase, answers: Seq<RawEvent>) -> nat
    decreases answers.len(),
{
    if phase == DrainPhase::Stopped || answers.len() == 0 {
        0
    } else {
        1 + polls(phase.after(answers.first().spec_kind()), answers.drop_first())
    }
}

/// The kinds of a run of answers, in order.
pub open spec fn kinds(answers: Seq<RawEvent>) -> Seq<RawKind> {
    Seq::new(answers.len(), |i: int| answers[i].spec_kind())
}

/// Whether every answer that some subscription wants can be read into an
/// event. What nobody wants need not be readable.
pub open spec fn all_readable(hub: MpvView, answers: Seq<RawEvent>) -> bool {
    forall|i: int|
        0 <= i < answers.len() && hub.awaits(#[trigger] answers[i]) ==> answers[i].decodable()
}

/// What a pass comes to when it ends.
#[derive(Debug, PartialEq, Eq)]
pub struct Drained {
    /// The batch for the polling subscription, if the pass found anything
    /// for it.
    pub batch: Option<Vec<Event>>,
    /// How many waiting subscribers were woken, if the pass woke them.
    pub woken: Option<usize>,
}

impl DrainPass {
    /// A pass before its first poll.
    pub fn new() -> (pass: DrainPass)
        ensures
            pass@ == DrainPassView::start(),
    {
        DrainPass { phase: DrainPhase::Polling, batch: Vec::new(), deposited: false }
    }

    /// Whether the pass is over, so that the engine is not to be polled
    /// again.
    pub fn is_over(&self) -> (over: bool)
        ensures
            over == (self@.phase == DrainPhase::Stopped),
    {
        self.phase.is_stopped()
    }

    /// Whether the pass has queued an event for other subscriptions.
    pub fn has_deposited(&self) -> (yes: bool)
        ensures
            yes == self@.deposited,
    {
        self.deposited
    }
}

impl EventIter {
    /// The subscription with the number `id`, before it is first asked for
    /// events.
    pub(crate) fn fresh(id: u64) -> (iter: EventIter)
        ensures
            iter@ == (EventIterView { id, stage: Stage::Fresh, waited: false }),
    {
        EventIter { id, stage: Stage::Fresh, waited: false }
    }

    /// The number of the subscription.
    pub fn id(&self) -> (id: u64)
        ensures
            id == self@.id,
    {
        self.id
    }

    /// Where the subscription stands in its life.
    pub fn stage(&self) -> (stage: Stage)
        ensures
            stage == self@.stage,
    {
        self.stage
    }

    /// Takes in the engine's answer to the requests that making this
    /// subscription caused: the first status that was not zero, or zero
    /// when the engine took them all.
    ///
    /// When the engine took them all, the subscription stands. Otherwise it
    /// is ended at once, and the rejection is handed back together with the
    /// requests that switch off what the subscription had switched on.
    pub fn settle(self, hub: &mut Mpv, status: i32) -> (outcome: Result<
        EventIter,
        (Error, Vec<EngineRequest>),
    >)
        requires
            old(hub)@.wf(),
        ensures
            final(hub)@.wf(),
            match outcome {
                Ok(iter) => status == 0 && iter@ == self@ && final(hub)@ == old(hub)@,
                Err((error, undo)) => {
                    &&& status != 0
                    &&& error == Error::EngineRejected(status)
                    &&& if self@.stage == Stage::Disposed {
                        undo@ == Seq::<EngineRequest>::empty() && final(hub)@ == old(hub)@
                    } else {
                        undo@ == old(hub)@.disabling(self@.id, old(hub)@.interests.len())
                            && final(hub)@ == old(hub)@.without(self@.id)
                    }
                },
            },
    {
        match Error::from_status(status) {
            Ok(_) => Ok(self),
            Err(error) => {
                let mut ended = self;
                let undo = ended.dispose(hub);
                Err((error, undo))
            },
        }
    }

    /// Says what the subscription has to do to come by its next batch.
    ///
    /// A subscription that was never asked polls the engine at once. Later
    /// it takes what is owed to it from the queue; if that is nothing, it
    /// waits for a wake-up and looks again, and if that is nothing either,
    /// it polls the engine itself. A batch is never empty, and holds only
    /// events that the subscription wants.
    pub fn next(&mut self, hub: &mut Mpv) -> (pull: Pull)
        requires
            old(hub)@.wf(),
        ensures
            final(hub)@.wf(),
            final(self)@.id == old(self)@.id,
            match old(self)@.stage {
                Stage::Disposed => pull is Finished && final(self)@ == old(self)@ && final(hub)@
                    == old(hub)@,
                Stage::Fresh => pull is Drain && final(self)@ == old(self)@ && final(hub)@ == old(
                    hub,
                )@,
                Stage::Active => {
                    &&& final(hub)@ == old(hub)@.released(old(self)@.id)
                    &&& final(self)@.stage == Stage::Active
                    &&& if old(hub)@.owed(old(self)@.id).len() > 0 {
                        pull matches Pull::Ready(batch) && batch@ == old(hub)@.owed(old(self)@.id)
                            && !final(self)@.waited
                    } else if !old(self)@.waited {
                        pull is Wait && final(self)@.waited && final(hub)@ == old(hub)@
                    } else {
                        pull is Drain && !final(self)@.waited && final(hub)@ == old(hub)@
                    }
                },
            },
            pull matches Pull::Ready(batch) ==> batch@.len() > 0 && forall|k: int|
                0 <= k < batch@.len() ==> old(hub)@.wants(
                    old(self)@.id,
                    (#[trigger] batch@[k]).template(),
                ),
    {
        match self.stage {
            Stage::Disposed => Pull::Finished,
            Stage::Fresh => Pull::Drain,
            Stage::Active => {
                let ghost before = hub@;
                let batch = hub.claim(self.id);
                if batch.len() > 0 {
                    self.waited = false;
                    proof {
                        assert forall|k: int| 0 <= k < batch@.len() implies before.wants(
                            self.id,
                            (#[trigger] batch@[k]).template(),
                        ) by {
                            lemma_owed_wanted(before, self.id, k);
                        }
                    }
                    Pull::Ready(batch)
                } else {
                    proof {
                        lemma_nothing_owed_nothing_changes(before, self.id);
                    }
                    if !self.waited {
                        self.waited = true;
                        Pull::Wait
                    } else {
                        self.waited = false;
                        Pull::Drain
                    }
                }
            },
        }
    }

    /// Takes in one answer of the engine during a pass of this
    /// subscription.
    ///
    /// "No event" twice in a row ends the pass, an overflow of the engine's
    /// queue ends it at once. An event goes to the batch when this
    /// subscription wants it, and to the queue when others want it. An
    /// answer that nobody wants is dropped without being read, so only
    /// what somebody wants has to be readable.
    pub fn drain_step(&self, hub: &mut Mpv, pass: &mut DrainPass, answer: &RawEvent)
        requires
            old(hub)@.wf(),
            old(hub)@.awaits(*answer) ==> answer.decodable(),
        ensures
            final(hub)@.wf(),
            final(hub)@.interests == old(hub)@.interests,
            (final(hub)@, final(pass)@) == old(pass)@.step(old(hub)@, self@.id, *answer),
    {
        let was_over = pass.phase.is_stopped();
        pass.phase = pass.phase.advance(answer.kind());
        if !was_over && hub.awaits(answer) {
            let event = Event::from_raw(answer);
            let (mine, queued) = hub.deposit(self.id, &event);
            if queued {
                pass.deposited = true;
            }
            if mine {
                pass.batch.push(event);
            }
        }
    }

    /// Feeds recorded answers of the engine to a pass of this
    /// subscription, in order, until the pass is over or the answers run
    /// out. Returns how many answers it took.
    pub fn drain_all(&self, hub: &mut Mpv, pass: &mut DrainPass, answers: &[RawEvent]) -> (taken:
        usize)
        requires
            old(hub)@.wf(),
            all_readable(old(hub)@, answers@),
        ensures
            final(hub)@.wf(),
            final(hub)@.interests == old(hub)@.interests,
            taken == polls(old(pass)@.phase, answers@),
            (final(hub)@, final(pass)@) == old(pass)@.run(
                old(hub)@,
                self@.id,
                answers@.take(taken as int),
            ),
    {
        let ghost hub_start = hub@;
        let ghost pass_start = pass@;
        let mut i: usize = 0;
        assert(answers@.take(0) =~= Seq::empty());
        assert(answers@.skip(0) =~= answers@);
        while i < answers.len() && !pass.is_over()
            invariant
                hub@.wf(),
                hub@.interests == hub_start.interests,
                all_readable(hub_start, answers@),
                i <= answers@.len(),
                (hub@, pass@) == pass_start.run(hub_start, self@.id, answers@.take(i as int)),
                i + polls(pass@.phase, answers@.skip(i as int)) == polls(
                    pass_start.phase,
                    answers@,
                ),
            decreases answers@.len() - i,
        {
            proof {
                assert(answers@.take(i + 1).drop_last() =~= answers@.take(i as int));
                assert(answers@.skip(i as int).drop_first() =~= answers@.skip(i + 1));
                assert(hub@.awaits(answers@[i as int]) == hub_start.awaits(answers@[i as int]));
            }
            self.drain_step(hub, pass, &answers[i]);
            i = i + 1;
        }
        i
    }

    /// Ends a pass of this subscription: wakes the other subscribers if
    /// the pass has queued anything for them, and hands out the batch if
    /// there is anything in it.
    ///
    /// The subscribers are woken exactly when the pass has queued
    /// something; how many of them were waiting is for the signal to say.
    pub fn finish_drain(&mut self, pass: DrainPass, signal: &WakeSignal) -> (drained: Drained)
        ensures
            final(self)@ == (EventIterView {
                stage: if old(self)@.stage == Stage::Disposed {
                    Stage::Disposed
                } else {
                    Stage::Active
                },
                waited: false,
                ..old(self)@
            }),
            match drained.batch {
                Some(batch) => batch@ == pass@.batch && batch@.len() > 0,
                None => pass@.batch.len() == 0,
            },
            drained.woken is Some <==> pass@.deposited,
    {
        let woken = if pass.deposited {
            Some(signal.notify_all())
        } else {
            None
        };
        match self.stage {
            Stage::Disposed => {},
            _ => {
                self.stage = Stage::Active;
            },
        }
        self.waited = false;
        let batch = if pass.batch.len() > 0 {
            Some(pass.batch)
        } else {
            None
        };
        Drained { batch, woken }
    }

    /// Ends the subscription. Its interests leave the registry, its claims
    /// on queued events are struck, and the requests that switch off what
    /// nobody wants any more are handed back for the caller to put to the
    /// engine. Ending a subscription twice does nothing the second time.
    pub fn dispose(&mut self, hub: &mut Mpv) -> (requests: Vec<EngineRequest>)
        requires
            old(hub)@.wf(),
        ensures
            final(hub)@.wf(),
            final(self)@ == (EventIterView { stage: Stage::Disposed, ..old(self)@ }),
            if old(self)@.stage == Stage::Disposed {
                requests@ == Seq::<EngineRequest>::empty() && final(hub)@ == old(hub)@
            } else {
                requests@ == old(hub)@.disabling(old(self)@.id, old(hub)@.interests.len())
                    && final(hub)@ == old(hub)@.without(old(self)@.id)
            },
    {
        match self.stage {
            Stage::Disposed => Vec::new(),
            _ => {
                self.stage = Stage::Disposed;
                hub.withdraw(self.id)
            },
        }
    }
}

} // verus!
