//! What holds of the library as a whole, proved from the model.

use vstd::prelude::*;
use crate::event::{Event, EventKind, Template};
use crate::iter::{kinds, polls, DrainPassView};
use crate::model::{
    is_not, not_owned_by, other_claimant, owed_to, property_template, without_claimant,
    InterestView, MpvView, PendingView,
};
use crate::preserve::{
    lemma_claimants_want, lemma_filter_places, lemma_observed_wf, lemma_released_entry,
};
use crate::raw::{DrainPhase, RawEvent, RawKind};
use crate::request::EngineRequest;

verus! {

// ----- a pass over the engine's pending events -----
/// "No event" twice in a row ends a pass.
pub proof fn lemma_two_sentinels_stop(phase: DrainPhase)
    ensures
        phase.after(RawKind::NoEvent).after(RawKind::NoEvent) == DrainPhase::Stopped,
{
}

/// "No event" once, followed by an event, does not end a pass: it goes on
/// as if the engine had not paused.
pub proof fn lemma_sentinel_then_event_goes_on(answer: RawKind)
    requires
        answer is Known || answer is Other,
    ensures
        DrainPhase::Polling.after(RawKind::NoEvent) != DrainPhase::Stopped,
        DrainPhase::Polling.after(RawKind::NoEvent).after(answer) == DrainPhase::Polling,
{
}

/// An event between two answers of "no event" keeps them from ending the
/// pass: only two in a row do.
pub proof fn lemma_sentinels_apart_go_on(phase: DrainPhase, answer: RawKind)
    requires
        phase != DrainPhase::Stopped,
        answer is Known || answer is Other,
    ensures
        phase.after(answer).after(RawKind::NoEvent) == DrainPhase::Paused,
{
}

/// An overflow of the engine's queue ends a pass at once, whatever came
/// before it.
pub proof fn lemma_overflow_stops(phase: DrainPhase)
    ensures
        phase.after(RawKind::QueueOverflow) == DrainPhase::Stopped,
{
}

/// An answer that is no event (a pause, or an overflow) changes nothing
/// but the phase of the pass: nothing is queued, nothing is delivered, and
/// nothing fails.
pub proof fn lemma_sentinel_changes_nothing(
    pass: DrainPassView,
    hub: MpvView,
    caller: u64,
    answer: RawEvent,
)
    requires
        !(answer.spec_kind() is Known),
    ensures
        pass.step(hub, caller, answer).0 == hub,
        pass.step(hub, caller, answer).1.batch == pass.batch,
        pass.step(hub, caller, answer).1.deposited == pass.deposited,
{
}

/// A pass that starts on two answers of "no event" asks for exactly those
/// two.
pub proof fn lemma_polls_two_sentinels(first: RawEvent, second: RawEvent, rest: Seq<RawEvent>)
    requires
        first.spec_kind() is NoEvent,
        second.spec_kind() is NoEvent,
    ensures
        polls(DrainPhase::Polling, seq![first, second] + rest) == 2,
{
    let answers = seq![first, second] + rest;
    assert(answers.first() == first);
    assert(answers.drop_first() =~= seq![second] + rest);
    assert(answers.drop_first().first() == second);
    reveal_with_fuel(polls, 3);
}

/// A pass that starts on "no event" followed by an event asks for both
/// and then goes on with what follows as if from its start.
pub proof fn lemma_polls_sentinel_then_event(first: RawEvent, second: RawEvent, rest: Seq<RawEvent>)
    requires
        first.spec_kind() is NoEvent,
        second.spec_kind() is Known || second.spec_kind() is Other,
    ensures
        polls(DrainPhase::Polling, seq![first, second] + rest) == 2 + polls(
            DrainPhase::Polling,
            rest,
        ),
{
    let answers = seq![first, second] + rest;
    assert(answers.first() == first);
    assert(answers.drop_first() =~= seq![second] + rest);
    assert(answers.drop_first().first() == second);
    assert(answers.drop_first().drop_first() =~= rest);
    reveal_with_fuel(polls, 3);
}

/// A pass that meets an overflow asks for nothing after it.
pub proof fn lemma_polls_overflow(phase: DrainPhase, overflow: RawEvent, rest: Seq<RawEvent>)
    requires
        phase != DrainPhase::Stopped,
        overflow.spec_kind() is QueueOverflow,
    ensures
        polls(phase, seq![overflow] + rest) == 1,
{
    let answers = seq![overflow] + rest;
    assert(answers.first() == overflow);
    reveal_with_fuel(polls, 2);
}

/// A pass that is over stays over, whatever is answered.
pub proof fn lemma_stopped_stays(answers: Seq<RawKind>)
    ensures
        DrainPhase::Stopped.after_all(answers) == DrainPhase::Stopped,
    decreases answers.len(),
{
    if answers.len() > 0 {
        lemma_stopped_stays(answers.drop_last());
    }
}

/// The phase after a run of answers is the phase after the rest of them,
/// begun from the phase after the first.
proof fn lemma_after_all_front(phase: DrainPhase, answers: Seq<RawKind>)
    requires
        answers.len() > 0,
    ensures
        phase.after_all(answers) == phase.after(answers.first()).after_all(answers.drop_first()),
    decreases answers.len(),
{
    if answers.len() == 1 {
        assert(answers.drop_last() =~= Seq::empty());
        assert(answers.drop_first() =~= Seq::empty());
        assert(phase.after_all(answers.drop_last()) == phase);
    } else {
        lemma_after_all_front(phase, answers.drop_last());
        assert(answers.drop_last().drop_first() =~= answers.drop_first().drop_last());
    }
}

/// A pass over two runs of answers, one after the other, asks for what it
/// asks of the first run, and then for what a pass in the phase after the
/// first run asks of the second. A pass that is not over after a run has
/// asked for all of it.
pub proof fn lemma_polls_split(phase: DrainPhase, front: Seq<RawEvent>, back: Seq<RawEvent>)
    ensures
        polls(phase, front + back) == polls(phase, front) + polls(
            phase.after_all(kinds(front)),
            back,
        ),
        phase.after_all(kinds(front)) != DrainPhase::Stopped ==> polls(phase, front)
            == front.len(),
    decreases front.len(),
{
    if front.len() == 0 {
        assert(front + back =~= back);
    } else if phase == DrainPhase::Stopped {
        lemma_stopped_stays(kinds(front));
    } else {
        let next = phase.after(front.first().spec_kind());
        lemma_polls_split(next, front.drop_first(), back);
        assert((front + back).drop_first() =~= front.drop_first() + back);
        assert((front + back).first() == front.first());
        lemma_after_all_front(phase, kinds(front));
        assert(kinds(front).drop_first() =~= kinds(front.drop_first()));
    }
}

/// Wherever in a pass "no event" is answered twice in a row, the pass
/// asks for nothing after the second: it ends there at the latest, and
/// exactly there when an event came just before.
pub proof fn lemma_two_sentinels_end_any_pass(
    phase: DrainPhase,
    front: Seq<RawEvent>,
    first: RawEvent,
    second: RawEvent,
    rest: Seq<RawEvent>,
)
    requires
        first.spec_kind() is NoEvent,
        second.spec_kind() is NoEvent,
    ensures
        polls(phase, front + (seq![first, second] + rest)) <= front.len() + 2,
        phase.after_all(kinds(front)) == DrainPhase::Polling ==> polls(
            phase,
            front + (seq![first, second] + rest),
        ) == front.len() + 2,
{
    let back = seq![first, second] + rest;
    lemma_polls_split(phase, front, back);
    assert(back.first() == first);
    assert(back.drop_first() =~= seq![second] + rest);
    assert(back.drop_first().first() == second);
    reveal_with_fuel(polls, 3);
    lemma_polls_at_most(phase, front);
}

/// Wherever in a pass "no event" is answered once and an event follows,
/// the pass asks for both and goes on as if from its start.
pub proof fn lemma_lone_sentinel_goes_on_in_any_pass(
    phase: DrainPhase,
    front: Seq<RawEvent>,
    sentinel: RawEvent,
    event: RawEvent,
    rest: Seq<RawEvent>,
)
    requires
        phase.after_all(kinds(front)) == DrainPhase::Polling,
        sentinel.spec_kind() is NoEvent,
        event.spec_kind() is Known || event.spec_kind() is Other,
    ensures
        polls(phase, front + (seq![sentinel, event] + rest)) == front.len() + 2 + polls(
            DrainPhase::Polling,
            rest,
        ),
{
    lemma_polls_split(phase, front, seq![sentinel, event] + rest);
    lemma_polls_sentinel_then_event(sentinel, event, rest);
}

/// Wherever in a pass the engine's queue is found to have overflown, the
/// pass asks for nothing after that answer.
pub proof fn lemma_overflow_ends_any_pass(
    phase: DrainPhase,
    front: Seq<RawEvent>,
    overflow: RawEvent,
    rest: Seq<RawEvent>,
)
    requires
        overflow.spec_kind() is QueueOverflow,
    ensures
        polls(phase, front + (seq![overflow] + rest)) <= front.len() + 1,
        phase.after_all(kinds(front)) != DrainPhase::Stopped ==> polls(
            phase,
            front + (seq![overflow] + rest),
        ) == front.len() + 1,
{
    let back = seq![overflow] + rest;
    lemma_polls_split(phase, front, back);
    assert(back.first() == overflow);
    reveal_with_fuel(polls, 2);
    lemma_polls_at_most(phase, front);
}

/// A pass never asks for more answers than there are.
pub proof fn lemma_polls_at_most(phase: DrainPhase, answers: Seq<RawEvent>)
    ensures
        polls(phase, answers) <= answers.len(),
    decreases answers.len(),
{
    if phase != DrainPhase::Stopped && answers.len() > 0 {
        lemma_polls_at_most(phase.after(answers.first().spec_kind()), answers.drop_first());
    }
}

/// The phase of a pass after a run of answers is the phase after their
/// kinds, whatever the pass delivers and queues on the way.
pub proof fn lemma_run_phase(
    pass: DrainPassView,
    hub: MpvView,
    caller: u64,
    answers: Seq<RawEvent>,
)
    ensures
        pass.run(hub, caller, answers).1.phase == pass.phase.after_all(kinds(answers)),
    decreases answers.len(),
{
    if answers.len() > 0 {
        lemma_run_phase(pass, hub, caller, answers.drop_last());
        assert(kinds(answers).drop_last() =~= kinds(answers.drop_last()));
    }
}

/// A pass leaves the registry alone, never takes an event back out of its
/// batch, and puts into its batch only events that the polling
/// subscription wants.
pub proof fn lemma_pass_delivers_wanted(
    pass: DrainPassView,
    hub: MpvView,
    caller: u64,
    answers: Seq<RawEvent>,
)
    ensures
        ({
            let (hub_after, pass_after) = pass.run(hub, caller, answers);
            &&& hub_after.interests == hub.interests
            &&& pass.batch.len() <= pass_after.batch.len()
            &&& pass_after.batch.take(pass.batch.len() as int) == pass.batch
            &&& forall|k: int|
                pass.batch.len() <= k < pass_after.batch.len() ==> hub.wants(
                    caller,
                    (#[trigger] pass_after.batch[k]).template(),
                )
        }),
    decreases answers.len(),
{
    if answers.len() == 0 {
        assert(pass.batch.take(pass.batch.len() as int) =~= pass.batch);
    } else {
        lemma_pass_delivers_wanted(pass, hub, caller, answers.drop_last());
        let (hub_before, pass_before) = pass.run(hub, caller, answers.drop_last());
        let (hub_after, pass_after) = pass_before.step(hub_before, caller, answers.last());
        assert(pass_after.batch.take(pass.batch.len() as int) =~= pass_before.batch.take(
            pass.batch.len() as int,
        ));
        assert forall|k: int| pass.batch.len() <= k < pass_after.batch.len() implies hub.wants(
            caller,
            (#[trigger] pass_after.batch[k]).template(),
        ) by {
            if k < pass_before.batch.len() {
                assert(pass_after.batch[k] == pass_before.batch[k]);
            } else {
                let event = answers.last().decoded();
                assert(hub_before.wants(caller, event.template()));
                let w = choose|w: int|
                    0 <= w < hub_before.interests.len() && (
                    #[trigger] hub_before.interests[w]).owner == caller
                        && hub_before.interests[w].template == event.template();
                assert(hub.interests[w] == hub_before.interests[w]);
            }
        }
    }
}

// ----- who wants what -----
/// A new subscription wants exactly what its templates match.
pub proof fn lemma_observed_wants(state: MpvView, events: Seq<Event>, template: Template)
    requires
        state.wf(),
    ensures
        state.observed(events).wants(state.next_owner, template) <==> exists|j: int|
            0 <= j < events.len() && (#[trigger] events[j]).template() == template,
{
    let after = state.observed(events);
    let old_len = state.interests.len() as int;
    if after.wants(state.next_owner, template) {
        let w = choose|w: int|
            0 <= w < after.interests.len() && (#[trigger] after.interests[w]).owner
                == state.next_owner && after.interests[w].template == template;
        if w < old_len {
            assert(after.interests[w] == state.interests[w]);
        } else {
            assert(events[w - old_len].template() == template);
        }
    }
    if exists|j: int| 0 <= j < events.len() && (#[trigger] events[j]).template() == template {
        let j = choose|j: int| 0 <= j < events.len() && (#[trigger] events[j]).template() == template;
        assert(after.interests[old_len + j] == state.interest_for(state.next_owner, events, j));
    }
}

/// A new subscription changes nothing of what the others want.
pub proof fn lemma_observed_keeps_others(
    state: MpvView,
    events: Seq<Event>,
    owner: u64,
    template: Template,
)
    requires
        owner != state.next_owner,
    ensures
        state.observed(events).wants(owner, template) <==> state.wants(owner, template),
{
    let after = state.observed(events);
    let old_len = state.interests.len() as int;
    if after.wants(owner, template) {
        let w = choose|w: int|
            0 <= w < after.interests.len() && (#[trigger] after.interests[w]).owner == owner
                && after.interests[w].template == template;
        if w < old_len {
            assert(after.interests[w] == state.interests[w]);
        } else {
            assert(after.interests[w] == state.interest_for(
                state.next_owner,
                events,
                w - old_len,
            ));
        }
    }
    if state.wants(owner, template) {
        let w = choose|w: int|
            0 <= w < state.interests.len() && (#[trigger] state.interests[w]).owner == owner
                && state.interests[w].template == template;
        assert(after.interests[w] == state.interests[w]);
    }
}

// ----- the numbers of observations -----
/// A property that is wanted is observed under the number that every
/// interest in it carries.
pub proof fn lemma_observation(state: MpvView, i: int)
    requires
        state.wf(),
        0 <= i < state.interests.len(),
        state.interests[i].template.kind == EventKind::PropertyChange,
    ensures
        state.observation(state.interests[i].template.name) == Some(
            state.interests[i].property_id,
        ),
{
    let name = state.interests[i].template.name;
    assert(state.interests[i].template == property_template(name));
    let c = choose|c: int|
        0 <= c < state.interests.len() && (#[trigger] state.interests[c]).template
            == property_template(name);
    assert(state.interests[c].template == state.interests[i].template);
}

/// Two properties are never observed under the same number, and every
/// number in use lies below the next one to be handed out.
pub proof fn lemma_observations_apart(state: MpvView, one: Seq<char>, other: Seq<char>)
    requires
        state.wf(),
        state.observation(one) is Some,
        state.observation(one) == state.observation(other),
    ensures
        one == other,
        state.observation(one)->Some_0 < state.next_property,
{
    let i = choose|i: int|
        0 <= i < state.interests.len() && (#[trigger] state.interests[i]).template
            == property_template(one);
    let j = choose|j: int|
        0 <= j < state.interests.len() && (#[trigger] state.interests[j]).template
            == property_template(other);
    assert(state.interests[i].template.kind == EventKind::PropertyChange);
    assert(state.interests[j].template.kind == EventKind::PropertyChange);
    assert(state.interests[i].template == state.interests[j].template);
}

/// A property that a new subscription is the first to want is observed
/// under a number that was never in use; one that is wanted already keeps
/// its number.
pub proof fn lemma_observed_numbers(state: MpvView, events: Seq<Event>, j: int)
    requires
        state.wf(),
        state.has_room(events.len()),
        !MpvView::has_duplicates(events),
        0 <= j < events.len(),
        events[j].spec_kind() == EventKind::PropertyChange,
    ensures
        state.observed(events).observation(events[j].template().name) == Some(
            match state.observation(events[j].template().name) {
                Some(id) => id,
                None => (state.next_property + j) as u64,
            },
        ),
        state.observation(events[j].template().name) is None ==> state.next_property
            <= state.next_property + j < state.observed(events).next_property,
{
    let after = state.observed(events);
    let old_len = state.interests.len() as int;
    lemma_observed_wf(state, events);
    assert(after.interests[old_len + j] == state.interest_for(state.next_owner, events, j));
    lemma_observation(after, old_len + j);
}

// ----- one copy for each subscriber -----
/// What a picking function gives for an element of a sequence is among
/// what it gives for the sequence.
proof fn lemma_filter_map_has<A, B>(s: Seq<A>, f: spec_fn(A) -> Option<B>, i: int)
    requires
        0 <= i < s.len(),
        f(s[i]) is Some,
    ensures
        s.filter_map(f).contains(f(s[i])->Some_0),
    decreases s.len(),
{
    let picked = f(s[i])->Some_0;
    let rest = s.drop_last();
    if i == s.len() - 1 {
        let out = s.filter_map(f);
        assert(out == rest.filter_map(f) + seq![picked]);
        assert(out[out.len() - 1] == picked);
    } else {
        lemma_filter_map_has(rest, f, i);
        let k = choose|k: int|
            0 <= k < rest.filter_map(f).len() && rest.filter_map(f)[k] == picked;
        assert(s.filter_map(f)[k] == picked);
    }
}

/// A picking function that gives nothing for any element gives nothing
/// for the sequence.
proof fn lemma_filter_map_nothing<A, B>(s: Seq<A>, f: spec_fn(A) -> Option<B>)
    requires
        forall|i: int| 0 <= i < s.len() ==> f(#[trigger] s[i]) is None,
    ensures
        s.filter_map(f) == Seq::<B>::empty(),
    decreases s.len(),
{
    if s.len() > 0 {
        assert forall|i: int| 0 <= i < s.drop_last().len() implies f(
            #[trigger] s.drop_last()[i],
        ) is None by {
            assert(s.drop_last()[i] == s[i]);
        }
        lemma_filter_map_nothing(s.drop_last(), f);
        assert(f(s[s.len() - 1]) is None);
    }
}

/// An event is queued for exactly those other subscriptions that want it.
pub proof fn lemma_claimants_are_the_others(
    state: MpvView,
    caller: u64,
    template: Template,
    other: u64,
)
    ensures
        state.claimants(caller, template).contains(other) <==> other != caller && state.wants(
            other,
            template,
        ),
{
    let pick = other_claimant(caller, template);
    let others = state.claimants(caller, template);
    if others.contains(other) {
        let c = choose|c: int| 0 <= c < others.len() && others[c] == other;
        lemma_claimants_want(state, caller, template, c);
    }
    if other != caller && state.wants(other, template) {
        let w = choose|w: int|
            0 <= w < state.interests.len() && (#[trigger] state.interests[w]).owner == other
                && state.interests[w].template == template;
        lemma_filter_map_has(state.interests, pick, w);
    }
}

/// When a subscription polls an event, every other subscription that
/// wants the event is owed exactly one more copy, after all that it was
/// owed before; nobody else is owed anything more.
pub proof fn lemma_deposited_owed(state: MpvView, caller: u64, event: Event, other: u64)
    ensures
        state.deposited(caller, event).owed(other) == if other != caller && state.wants(
            other,
            event.template(),
        ) {
            state.owed(other).push(event)
        } else {
            state.owed(other)
        },
{
    let others = state.claimants(caller, event.template());
    lemma_claimants_are_the_others(state, caller, event.template(), other);
    if others.len() > 0 {
        let entry = PendingView { event, claimants: others };
        assert(state.shared.push(entry).drop_last() =~= state.shared);
        assert(state.deposited(caller, event).owed(other) =~= state.owed(other) + (match owed_to(
            other,
        )(entry) {
            Some(e) => seq![e],
            None => Seq::empty(),
        }));
    } else {
        if other != caller && state.wants(other, event.template()) {
            let c = choose|c: int| 0 <= c < others.len() && others[c] == other;
        }
    }
}

/// Once a subscription has claimed what was owed to it, nothing is owed
/// to it any more: no event reaches a subscriber twice.
pub proof fn lemma_claimed_once(state: MpvView, owner: u64)
    ensures
        state.released(owner).owed(owner) == Seq::<Event>::empty(),
{
    let after = state.released(owner);
    assert forall|q: int| 0 <= q < after.shared.len() implies owed_to(owner)(
        #[trigger] after.shared[q],
    ) is None by {
        lemma_released_entry(state, owner, q);
        let p = choose|p: int|
            0 <= p < state.shared.len() && after.shared[q].event == (
            #[trigger] state.shared[p]).event && after.shared[q].claimants
                == state.shared[p].claimants.filter(is_not(owner));
        if after.shared[q].claimants.contains(owner) {
            let c = choose|c: int|
                0 <= c < after.shared[q].claimants.len() && after.shared[q].claimants[c] == owner;
            state.shared[p].claimants.lemma_filter_pred(is_not(owner), c);
        }
    }
    lemma_filter_map_nothing(after.shared, owed_to(owner));
}

/// What one subscription wants is wanted.
pub proof fn lemma_wanted_is_held(state: MpvView, owner: u64, template: Template)
    requires
        state.wants(owner, template),
    ensures
        state.holds(template),
{
    let w = choose|w: int|
        0 <= w < state.interests.len() && (#[trigger] state.interests[w]).owner == owner
            && state.interests[w].template == template;
    assert(state.interests[w].template == template);
}

/// An answer that nobody wants changes nothing but the phase of the pass,
/// whether or not it could be read: it is dropped, and nothing fails.
pub proof fn lemma_unwanted_is_dropped(
    pass: DrainPassView,
    hub: MpvView,
    caller: u64,
    answer: RawEvent,
)
    requires
        !hub.awaits(answer),
    ensures
        pass.step(hub, caller, answer).0 == hub,
        pass.step(hub, caller, answer).1 == (DrainPassView {
            phase: pass.phase.after(answer.spec_kind()),
            ..pass
        }),
{
}

/// An answer that could be read but that neither the polling subscription
/// nor any other wants leaves no trace: wanting is all that puts an event
/// anywhere.
pub proof fn lemma_readable_but_unwanted(hub: MpvView, caller: u64, answer: RawEvent)
    requires
        answer.decodable(),
        !hub.holds(answer.decoded().template()),
    ensures
        !hub.awaits(answer),
        !hub.wants(caller, answer.decoded().template()),
        hub.deposited(caller, answer.decoded()) == hub,
{
    answer.lemma_decoded_template();
    let template = answer.decoded().template();
    if hub.wants(caller, template) {
        lemma_wanted_is_held(hub, caller, template);
    }
    let others = hub.claimants(caller, template);
    if others.len() > 0 {
        lemma_claimants_want(hub, caller, template, 0);
        lemma_wanted_is_held(hub, others[0], template);
    }
}

/// One event that two subscriptions want reaches both, once each: the one
/// that polls it gets it in its batch, the other is owed one copy, which
/// its next claim takes.
pub proof fn lemma_shared_event_reaches_both(
    pass: DrainPassView,
    hub: MpvView,
    polling: u64,
    waiting: u64,
    answer: RawEvent,
)
    requires
        polling != waiting,
        pass.phase != DrainPhase::Stopped,
        answer.decodable(),
        hub.wants(polling, answer.decoded().template()),
        hub.wants(waiting, answer.decoded().template()),
    ensures
        ({
            let (hub_after, pass_after) = pass.step(hub, polling, answer);
            &&& pass_after.batch == pass.batch.push(answer.decoded())
            &&& hub_after.owed(polling) == hub.owed(polling)
            &&& hub_after.owed(waiting) == hub.owed(waiting).push(answer.decoded())
            &&& hub_after.released(waiting).owed(waiting) == Seq::<Event>::empty()
        }),
{
    let event = answer.decoded();
    answer.lemma_decoded_template();
    lemma_wanted_is_held(hub, polling, event.template());
    lemma_deposited_owed(hub, polling, event, polling);
    lemma_deposited_owed(hub, polling, event, waiting);
    lemma_claimed_once(hub.deposited(polling, event), waiting);
}

/// An entry leaves the queue with its last claim: when nobody but `owner`
/// has a claim on any entry, the queue is empty once `owner` has claimed.
pub proof fn lemma_last_claim_clears(state: MpvView, owner: u64)
    requires
        forall|q: int, c: int|
            0 <= q < state.shared.len() && 0 <= c < state.shared[q].claimants.len()
                ==> #[trigger] state.shared[q].claimants[c] == owner,
    ensures
        state.released(owner).shared == Seq::<PendingView>::empty(),
{
    assert forall|q: int| 0 <= q < state.shared.len() implies without_claimant(owner)(
        #[trigger] state.shared[q],
    ) is None by {
        let claimants = state.shared[q].claimants;
        let rest = claimants.filter(is_not(owner));
        if rest.len() > 0 {
            assert(rest.contains(rest[0]));
            claimants.lemma_filter_pred(is_not(owner), 0);
            claimants.lemma_filter_contains_rev(is_not(owner), rest[0]);
            let c = choose|c: int| 0 <= c < claimants.len() && claimants[c] == rest[0];
            assert(state.shared[q].claimants[c] == owner);
        }
    }
    lemma_filter_map_nothing(state.shared, without_claimant(owner));
}

/// A filter that every element passes changes nothing.
proof fn lemma_filter_all<A>(s: Seq<A>, pred: spec_fn(A) -> bool)
    requires
        forall|i: int| 0 <= i < s.len() ==> pred(#[trigger] s[i]),
    ensures
        s.filter(pred) == s,
    decreases s.len(),
{
    reveal(Seq::filter);
    if s.len() > 0 {
        assert forall|i: int| 0 <= i < s.drop_last().len() implies pred(
            #[trigger] s.drop_last()[i],
        ) by {
            assert(s.drop_last()[i] == s[i]);
        }
        lemma_filter_all(s.drop_last(), pred);
        assert(pred(s[s.len() - 1]));
        assert(s.drop_last().push(s.last()) =~= s);
    }
}

/// A picking function that gives every element back gives the sequence
/// back.
proof fn lemma_filter_map_same<A>(s: Seq<A>, f: spec_fn(A) -> Option<A>)
    requires
        forall|i: int| 0 <= i < s.len() ==> f(#[trigger] s[i]) == Some(s[i]),
    ensures
        s.filter_map(f) == s,
    decreases s.len(),
{
    if s.len() > 0 {
        assert forall|i: int| 0 <= i < s.drop_last().len() implies f(
            #[trigger] s.drop_last()[i],
        ) == Some(s.drop_last()[i]) by {
            assert(s.drop_last()[i] == s[i]);
        }
        lemma_filter_map_same(s.drop_last(), f);
        assert(f(s[s.len() - 1]) == Some(s.last()));
        assert(s.drop_last() + seq![s.last()] =~= s);
    }
}

/// A subscription that is owed nothing changes nothing by claiming.
pub proof fn lemma_nothing_owed_nothing_changes(state: MpvView, owner: u64)
    requires
        state.wf(),
        state.owed(owner).len() == 0,
    ensures
        state.released(owner) == state,
{
    assert forall|q: int| 0 <= q < state.shared.len() implies without_claimant(owner)(
        #[trigger] state.shared[q],
    ) == Some(state.shared[q]) by {
        let claimants = state.shared[q].claimants;
        if claimants.contains(owner) {
            lemma_filter_map_has(state.shared, owed_to(owner), q);
        }
        assert forall|c: int| 0 <= c < claimants.len() implies is_not(owner)(
            #[trigger] claimants[c],
        ) by {
            assert(claimants.contains(claimants[c]));
        }
        lemma_filter_all(claimants, is_not(owner));
    }
    lemma_filter_map_same(state.shared, without_claimant(owner));
}

// ----- switching kinds on -----
/// What is due for one of the templates of a new subscription is among
/// what is due for the subscription.
proof fn lemma_enabling_has(
    state: MpvView,
    events: Seq<Event>,
    n: nat,
    j: int,
    request: EngineRequest,
)
    requires
        0 <= j < n <= events.len(),
        state.enabling_at(events, j).contains(request),
    ensures
        state.enabling(events, n).contains(request),
    decreases n,
{
    let before = state.enabling(events, (n - 1) as nat);
    let due = state.enabling_at(events, n - 1);
    if j == n - 1 {
        let k = choose|k: int| 0 <= k < due.len() && due[k] == request;
        assert((before + due)[before.len() + k] == request);
    } else {
        lemma_enabling_has(state, events, (n - 1) as nat, j, request);
        let k = choose|k: int| 0 <= k < before.len() && before[k] == request;
        assert((before + due)[k] == request);
    }
}

/// What is due for a new subscription is due for one of its templates.
proof fn lemma_enabling_from(state: MpvView, events: Seq<Event>, n: nat, request: EngineRequest) -> (j:
    int)
    requires
        n <= events.len(),
        state.enabling(events, n).contains(request),
    ensures
        0 <= j < n,
        state.enabling_at(events, j).contains(request),
    decreases n,
{
    let all = state.enabling(events, n);
    let k = choose|k: int| 0 <= k < all.len() && all[k] == request;
    if n == 0 {
        0
    } else {
        let before = state.enabling(events, (n - 1) as nat);
        if k >= before.len() {
            let due = state.enabling_at(events, n - 1);
            assert(due[k - before.len()] == request);
            n - 1
        } else {
            assert(before[k] == request);
            lemma_enabling_from(state, events, (n - 1) as nat, request)
        }
    }
}

/// The first place among the first `n` templates that is of `kind`.
proof fn lemma_first_place(events: Seq<Event>, kind: EventKind, n: nat) -> (j: int)
    requires
        n <= events.len(),
        exists|m: int| 0 <= m < n && (#[trigger] events[m]).spec_kind() == kind,
    ensures
        0 <= j < n,
        events[j].spec_kind() == kind,
        forall|m: int| 0 <= m < j ==> (#[trigger] events[m]).spec_kind() != kind,
    decreases n,
{
    if exists|m: int| 0 <= m < n - 1 && (#[trigger] events[m]).spec_kind() == kind {
        lemma_first_place(events, kind, (n - 1) as nat)
    } else {
        let m = choose|m: int| 0 <= m < n && (#[trigger] events[m]).spec_kind() == kind;
        assert(m == n - 1);
        n - 1
    }
}

/// When a new subscription is the first to want a kind, the kind is
/// switched on at the engine.
pub proof fn lemma_first_wish_switches_on(state: MpvView, events: Seq<Event>, kind: EventKind)
    requires
        !state.holds_kind(kind),
        exists|m: int| 0 <= m < events.len() && (#[trigger] events[m]).spec_kind() == kind,
    ensures
        state.enabling(events, events.len()).contains(
            EngineRequest::RequestEvent { id: kind.spec_id(), enable: true },
        ),
{
    let request = EngineRequest::RequestEvent { id: kind.spec_id(), enable: true };
    let j = lemma_first_place(events, kind, events.len());
    assert(state.first_of_kind(events, j));
    let due = state.enabling_at(events, j);
    match events[j] {
        Event::LogMessage { .. } => {
            assert(due[1] == request);
        },
        _ => {
            assert(due[0] == request);
        },
    }
    lemma_enabling_has(state, events, events.len(), j, request);
}

/// When a kind is wanted already, a new subscription does not switch it
/// on again.
pub proof fn lemma_wanted_kind_is_not_switched_again(
    state: MpvView,
    events: Seq<Event>,
    kind: EventKind,
)
    requires
        state.holds_kind(kind),
    ensures
        !state.enabling(events, events.len()).contains(
            EngineRequest::RequestEvent { id: kind.spec_id(), enable: true },
        ),
{
    let request = EngineRequest::RequestEvent { id: kind.spec_id(), enable: true };
    if state.enabling(events, events.len()).contains(request) {
        let j = lemma_enabling_from(state, events, events.len(), request);
        let due = state.enabling_at(events, j);
        let k = choose|k: int| 0 <= k < due.len() && due[k] == request;
        assert(events[j].spec_kind().spec_id() == kind.spec_id());
        assert(events[j].spec_kind() == kind);
        assert(state.first_of_kind(events, j));
    }
}

// ----- switching kinds off -----
/// What is due for one of the interests of a subscription is among what is
/// due when the subscription ends.
proof fn lemma_disabling_has(state: MpvView, owner: u64, n: nat, i: int, request: EngineRequest)
    requires
        0 <= i < n <= state.interests.len(),
        state.interests[i].owner == owner,
        state.disabling_at(i).contains(request),
    ensures
        state.disabling(owner, n).contains(request),
    decreases n,
{
    let before = state.disabling(owner, (n - 1) as nat);
    if i == n - 1 {
        let due = state.disabling_at(i);
        let k = choose|k: int| 0 <= k < due.len() && due[k] == request;
        assert((before + due)[before.len() + k] == request);
    } else {
        lemma_disabling_has(state, owner, (n - 1) as nat, i, request);
        let k = choose|k: int| 0 <= k < before.len() && before[k] == request;
        if state.interests[n - 1].owner == owner {
            assert((before + state.disabling_at(n - 1))[k] == request);
        }
    }
}

/// What is due when a subscription ends is due for one of its interests.
proof fn lemma_disabling_from(state: MpvView, owner: u64, n: nat, request: EngineRequest) -> (i:
    int)
    requires
        n <= state.interests.len(),
        state.disabling(owner, n).contains(request),
    ensures
        0 <= i < n,
        state.interests[i].owner == owner,
        state.disabling_at(i).contains(request),
    decreases n,
{
    let all = state.disabling(owner, n);
    let k = choose|k: int| 0 <= k < all.len() && all[k] == request;
    if n == 0 {
        0
    } else {
        let before = state.disabling(owner, (n - 1) as nat);
        if state.interests[n - 1].owner == owner && k >= before.len() {
            let due = state.disabling_at(n - 1);
            assert(due[k - before.len()] == request);
            n - 1
        } else {
            assert(before[k] == request);
            lemma_disabling_from(state, owner, (n - 1) as nat, request)
        }
    }
}

/// The last place among the first `n` interests at which `kind` is
/// wanted.
proof fn lemma_last_place(state: MpvView, kind: EventKind, n: nat) -> (i: int)
    requires
        n <= state.interests.len(),
        exists|j: int| 0 <= j < n && (#[trigger] state.interests[j]).template.kind == kind,
    ensures
        0 <= i < n,
        state.interests[i].template.kind == kind,
        forall|j: int| i < j < n ==> (#[trigger] state.interests[j]).template.kind != kind,
    decreases n,
{
    if state.interests[n - 1].template.kind == kind {
        n - 1
    } else {
        let j = choose|j: int| 0 <= j < n && (#[trigger] state.interests[j]).template.kind == kind;
        assert(j < n - 1);
        lemma_last_place(state, kind, (n - 1) as nat)
    }
}

/// When the only subscription that wants a kind ends, the kind is
/// switched off at the engine, and nobody is left who wants it.
pub proof fn lemma_last_holder_switches_off(state: MpvView, owner: u64, kind: EventKind)
    requires
        exists|i: int|
            0 <= i < state.interests.len() && (#[trigger] state.interests[i]).template.kind == kind,
        forall|j: int|
            0 <= j < state.interests.len() && (#[trigger] state.interests[j]).template.kind == kind
                ==> state.interests[j].owner == owner,
    ensures
        state.disabling(owner, state.interests.len()).contains(
            EngineRequest::RequestEvent { id: kind.spec_id(), enable: false },
        ),
        !state.without(owner).holds_kind(kind),
{
    let request = EngineRequest::RequestEvent { id: kind.spec_id(), enable: false };
    let i = lemma_last_place(state, kind, state.interests.len());
    assert(state.last_of_kind(i));
    let due = state.disabling_at(i);
    assert(due[due.len() - 1] == request);
    lemma_disabling_has(state, owner, state.interests.len(), i, request);
    let after = state.without(owner);
    let places = lemma_filter_places(state.interests, not_owned_by(owner));
    if after.holds_kind(kind) {
        let k = choose|k: int|
            0 <= k < after.interests.len() && (#[trigger] after.interests[k]).template.kind == kind;
        assert(state.interests[places[k]].template.kind == kind);
    }
}

/// When a subscription ends while another one wants a kind, the kind
/// stays switched on at the engine.
pub proof fn lemma_kind_stays_on(state: MpvView, owner: u64, kind: EventKind)
    requires
        exists|j: int|
            0 <= j < state.interests.len() && (#[trigger] state.interests[j]).template.kind == kind
                && state.interests[j].owner != owner,
    ensures
        !state.disabling(owner, state.interests.len()).contains(
            EngineRequest::RequestEvent { id: kind.spec_id(), enable: false },
        ),
        state.without(owner).holds_kind(kind),
{
    let request = EngineRequest::RequestEvent { id: kind.spec_id(), enable: false };
    let j = choose|j: int|
        0 <= j < state.interests.len() && (#[trigger] state.interests[j]).template.kind == kind
            && state.interests[j].owner != owner;
    if state.disabling(owner, state.interests.len()).contains(request) {
        let i = lemma_disabling_from(state, owner, state.interests.len(), request);
        let due = state.disabling_at(i);
        let k = choose|k: int| 0 <= k < due.len() && due[k] == request;
        assert(state.interests[i].template.kind.spec_id() == kind.spec_id());
        assert(state.interests[i].template.kind == kind);
        assert(state.last_of_kind(i));
        assert(state.interests[j].template.kind == state.interests[i].template.kind);
    }
    let after = state.without(owner);
    let places = lemma_filter_places(state.interests, not_owned_by(owner));
    assert(not_owned_by(owner)(state.interests[j]));
    let k = choose|k: int| 0 <= k < places.len() && #[trigger] places[k] == j;
    assert(after.interests[k].template.kind == kind);
}

/// A subscription that is ended right after it was made leaves the
/// registry as it was before: a rejected subscription leaves no trace.
pub proof fn lemma_made_and_ended(state: MpvView, events: Seq<Event>)
    requires
        state.wf(),
    ensures
        state.observed(events).without(state.next_owner).interests == state.interests,
{
    let keep = not_owned_by(state.next_owner);
    let fresh = Seq::new(events.len(), |j: int| state.interest_for(state.next_owner, events, j));
    Seq::filter_distributes_over_add(state.interests, fresh, keep);
    assert forall|i: int| 0 <= i < state.interests.len() implies keep(
        #[trigger] state.interests[i],
    ) by {}
    lemma_filter_all(state.interests, keep);
    fresh.lemma_filter_len(keep);
    if fresh.filter(keep).len() > 0 {
        let first = fresh.filter(keep)[0];
        assert(fresh.filter(keep).contains(first));
        fresh.lemma_filter_pred(keep, 0);
        fresh.lemma_filter_contains_rev(keep, first);
    }
    assert(fresh.filter(keep) =~= Seq::empty());
    assert(state.interests + Seq::<InterestView>::empty() =~= state.interests);
}

/// When a subscription has ended, it wants nothing, and what the others
/// want is what they wanted before.
pub proof fn lemma_without_wants(state: MpvView, owner: u64, other: u64, template: Template)
    ensures
        !state.without(owner).wants(owner, template),
        other != owner ==> (state.without(owner).wants(other, template) <==> state.wants(
            other,
            template,
        )),
{
    let after = state.without(owner);
    let places = lemma_filter_places(state.interests, not_owned_by(owner));
    if after.wants(owner, template) {
        let w = choose|w: int|
            0 <= w < after.interests.len() && (#[trigger] after.interests[w]).owner == owner
                && after.interests[w].template == template;
        assert(after.interests[w] == state.interests[places[w]]);
    }
    if other != owner {
        if after.wants(other, template) {
            let w = choose|w: int|
                0 <= w < after.interests.len() && (#[trigger] after.interests[w]).owner == other
                    && after.interests[w].template == template;
            assert(after.interests[w] == state.interests[places[w]]);
        }
        if state.wants(other, template) {
            let w = choose|w: int|
                0 <= w < state.interests.len() && (#[trigger] state.interests[w]).owner == other
                    && state.interests[w].template == template;
            assert(not_owned_by(owner)(state.interests[w]));
            let k = choose|k: int| 0 <= k < places.len() && #[trigger] places[k] == w;
            assert(after.interests[k] == state.interests[w]);
        }
    }
}

} // verus!
