//! Proofs that every step of the shared state keeps its invariant.

use vstd::prelude::*;
use crate::event::{Event, EventKind, Template};
use crate::model::{
    is_not, not_owned_by, other_claimant, owed_to, property_template, without_claimant,
    InterestView, MpvView, PendingView,
};

verus! {

/// A new subscription with templates that differ from each other keeps
/// the invariant.
pub proof fn lemma_observed_wf(state: MpvView, events: Seq<Event>)
    requires
        state.wf(),
        !MpvView::has_duplicates(events),
        state.has_room(events.len()),
    ensures
        state.observed(events).wf(),
{
    let after = state.observed(events);
    let old_len = state.interests.len() as int;
    assert forall|i: int| 0 <= i < after.interests.len() implies {
        &&& (#[trigger] after.interests[i]).owner < after.next_owner
        &&& after.interests[i].template.kind != EventKind::PropertyChange
            ==> after.interests[i].template.name == Seq::<char>::empty()
            && after.interests[i].property_id == 0
        &&& after.interests[i].template.kind == EventKind::PropertyChange
            ==> after.interests[i].property_id < after.next_property
    } by {
        if i < old_len {
            assert(after.interests[i] == state.interests[i]);
        } else {
            let j = i - old_len;
            assert(after.interests[i] == state.interest_for(state.next_owner, events, j));
            lemma_fresh_number(state, events, j);
        }
    }
    assert forall|i: int, j: int|
        0 <= i < after.interests.len() && 0 <= j < after.interests.len() && (
        #[trigger] after.interests[i]).template.kind == EventKind::PropertyChange && (
        #[trigger] after.interests[j]).template.kind
            == EventKind::PropertyChange implies (after.interests[i].template
        == after.interests[j].template <==> after.interests[i].property_id
        == after.interests[j].property_id) by {
        lemma_numbers_agree(state, events, i, j);
    }
    assert forall|i: int, j: int|
        0 <= i < j < after.interests.len() && (#[trigger] after.interests[i]).owner == (
        #[trigger] after.interests[j]).owner implies after.interests[i].template
        != after.interests[j].template by {
        if j < old_len {
            assert(after.interests[i] == state.interests[i]);
            assert(after.interests[j] == state.interests[j]);
        } else if i < old_len {
            assert(after.interests[i] == state.interests[i]);
        } else {
            assert(after.interests[i].template == events[i - old_len].template());
            assert(after.interests[j].template == events[j - old_len].template());
        }
    }
    assert forall|q: int, c: int|
        0 <= q < after.shared.len() && 0 <= c < after.shared[q].claimants.len() implies after.wants(
        #[trigger] after.shared[q].claimants[c],
        after.shared[q].event.template(),
    ) by {
        let owner = state.shared[q].claimants[c];
        let template = state.shared[q].event.template();
        assert(state.wants(owner, template));
        let w = choose|w: int|
            0 <= w < state.interests.len() && (#[trigger] state.interests[w]).owner == owner
                && state.interests[w].template == template;
        assert(after.interests[w] == state.interests[w]);
    }
}

/// The number that a template of a new subscription gets: that of the
/// property if it is observed already, else one that no observation has.
proof fn lemma_fresh_number(state: MpvView, events: Seq<Event>, j: int)
    requires
        state.wf(),
        state.has_room(events.len()),
        0 <= j < events.len(),
    ensures
        ({
            let interest = state.interest_for(state.next_owner, events, j);
            &&& interest.template == events[j].template()
            &&& interest.template.kind != EventKind::PropertyChange ==> interest.template.name
                == Seq::<char>::empty() && interest.property_id == 0
            &&& interest.template.kind == EventKind::PropertyChange ==> {
                &&& interest.property_id < state.next_property + events.len()
                &&& state.holds(interest.template) ==> interest.property_id < state.next_property
                    && exists|c: int|
                    0 <= c < state.interests.len() && (#[trigger] state.interests[c]).template
                        == interest.template && state.interests[c].property_id
                        == interest.property_id
                &&& !state.holds(interest.template) ==> interest.property_id == state.next_property
                    + j
            }
        }),
{
    let interest = state.interest_for(state.next_owner, events, j);
    let template = events[j].template();
    if template.kind == EventKind::PropertyChange {
        assert(template == property_template(template.name));
        if state.holds(template) {
            let c = choose|c: int|
                0 <= c < state.interests.len() && (#[trigger] state.interests[c]).template
                    == property_template(template.name);
            assert(interest.property_id == state.interests[c].property_id);
        }
    }
}

/// After a new subscription, two interests in properties have the same
/// number exactly when they are in the same property.
proof fn lemma_numbers_agree(state: MpvView, events: Seq<Event>, i: int, j: int)
    requires
        state.wf(),
        !MpvView::has_duplicates(events),
        state.has_room(events.len()),
        0 <= i < state.observed(events).interests.len(),
        0 <= j < state.observed(events).interests.len(),
        state.observed(events).interests[i].template.kind == EventKind::PropertyChange,
        state.observed(events).interests[j].template.kind == EventKind::PropertyChange,
    ensures
        state.observed(events).interests[i].template == state.observed(
            events,
        ).interests[j].template <==> state.observed(events).interests[i].property_id
            == state.observed(events).interests[j].property_id,
{
    let after = state.observed(events);
    let old_len = state.interests.len() as int;
    if i < old_len {
        assert(after.interests[i] == state.interests[i]);
    } else {
        assert(after.interests[i] == state.interest_for(state.next_owner, events, i - old_len));
        lemma_fresh_number(state, events, i - old_len);
    }
    if j < old_len {
        assert(after.interests[j] == state.interests[j]);
    } else {
        assert(after.interests[j] == state.interest_for(state.next_owner, events, j - old_len));
        lemma_fresh_number(state, events, j - old_len);
    }
    if i >= old_len && j >= old_len && i != j {
        if i < j {
            assert(events[i - old_len].template() != events[j - old_len].template());
        } else {
            assert(events[j - old_len].template() != events[i - old_len].template());
        }
    }
    let a = after.interests[i];
    let b = after.interests[j];
    if i < old_len && j >= old_len {
        if a.template == b.template {
            assert(state.holds(b.template));
        }
    }
    if j < old_len && i >= old_len {
        if a.template == b.template {
            assert(state.holds(a.template));
        }
    }
}

/// Every subscription that an event is queued for wants the event.
pub proof fn lemma_claimants_want(state: MpvView, caller: u64, template: Template, c: int)
    requires
        0 <= c < state.claimants(caller, template).len(),
    ensures
        state.wants(state.claimants(caller, template)[c], template),
        state.claimants(caller, template)[c] != caller,
{
    let others = state.claimants(caller, template);
    let pick = other_claimant(caller, template);
    assert(others.contains(others[c]));
    state.interests.lemma_filter_map_contains(pick, others[c]);
    let interest = choose|interest: InterestView| #[trigger]
        state.interests.contains(interest) && pick(interest) == Some(others[c]);
    let w = choose|w: int| 0 <= w < state.interests.len() && state.interests[w] == interest;
    assert(state.interests[w].owner == others[c]);
}

/// Queueing a polled event for the others that want it keeps the
/// invariant.
pub proof fn lemma_deposited_wf(state: MpvView, caller: u64, event: Event)
    requires
        state.wf(),
    ensures
        state.deposited(caller, event).wf(),
{
    let after = state.deposited(caller, event);
    let others = state.claimants(caller, event.template());
    if others.len() > 0 {
        assert forall|q: int, c: int|
            0 <= q < after.shared.len() && 0 <= c < after.shared[q].claimants.len() implies after.wants(
            #[trigger] after.shared[q].claimants[c],
            after.shared[q].event.template(),
        ) by {
            if q < state.shared.len() {
                assert(after.shared[q] == state.shared[q]);
                assert(state.wants(state.shared[q].claimants[c], state.shared[q].event.template()));
            } else {
                lemma_claimants_want(state, caller, event.template(), c);
            }
        }
        assert forall|q: int| 0 <= q < after.shared.len() implies (
        #[trigger] after.shared[q]).claimants.len() > 0 by {
            if q < state.shared.len() {
                assert(after.shared[q] == state.shared[q]);
            }
        }
    }
}

/// What remains in the queue when `owner` gives up its claims: every entry
/// comes from an entry of the queue, keeps its event, and keeps the
/// claimants other than `owner`, of which there is at least one.
pub proof fn lemma_released_entry(state: MpvView, owner: u64, q: int)
    requires
        0 <= q < state.released(owner).shared.len(),
    ensures
        exists|p: int|
            0 <= p < state.shared.len() && state.released(owner).shared[q].event == (
            #[trigger] state.shared[p]).event && state.released(owner).shared[q].claimants
                == state.shared[p].claimants.filter(is_not(owner)),
        state.released(owner).shared[q].claimants.len() > 0,
{
    let kept = state.released(owner).shared;
    let strip = without_claimant(owner);
    assert(kept.contains(kept[q]));
    state.shared.lemma_filter_map_contains(strip, kept[q]);
    let pending = choose|pending: PendingView| #[trigger]
        state.shared.contains(pending) && strip(pending) == Some(kept[q]);
    let p = choose|p: int| 0 <= p < state.shared.len() && state.shared[p] == pending;
    assert(state.shared[p].event == kept[q].event);
}

/// Giving up every claim of one subscription keeps the invariant, and
/// leaves that subscription no claim.
pub proof fn lemma_released_wf(state: MpvView, owner: u64)
    requires
        state.wf(),
    ensures
        state.released(owner).wf(),
        forall|q: int, c: int|
            0 <= q < state.released(owner).shared.len() && 0 <= c < state.released(
                owner,
            ).shared[q].claimants.len() ==> #[trigger] state.released(owner).shared[q].claimants[c]
                != owner,
{
    let after = state.released(owner);
    assert forall|q: int| 0 <= q < after.shared.len() implies (
    #[trigger] after.shared[q]).claimants.len() > 0 by {
        lemma_released_entry(state, owner, q);
    }
    assert forall|q: int, c: int|
        0 <= q < after.shared.len() && 0 <= c < after.shared[q].claimants.len() implies after.wants(
        #[trigger] after.shared[q].claimants[c],
        after.shared[q].event.template(),
    ) && after.shared[q].claimants[c] != owner by {
        lemma_released_entry(state, owner, q);
        let p = choose|p: int|
            0 <= p < state.shared.len() && after.shared[q].event == (
            #[trigger] state.shared[p]).event && after.shared[q].claimants
                == state.shared[p].claimants.filter(is_not(owner));
        let claimant = after.shared[q].claimants[c];
        state.shared[p].claimants.lemma_filter_pred(is_not(owner), c);
        assert(after.shared[q].claimants.contains(claimant));
        state.shared[p].claimants.lemma_filter_contains_rev(is_not(owner), claimant);
        let k = choose|k: int|
            0 <= k < state.shared[p].claimants.len() && state.shared[p].claimants[k] == claimant;
        assert(state.wants(state.shared[p].claimants[k], state.shared[p].event.template()));
    }
}

/// Every event that is owed to a subscription is one that it wants.
pub proof fn lemma_owed_wanted(state: MpvView, owner: u64, k: int)
    requires
        state.wf(),
        0 <= k < state.owed(owner).len(),
    ensures
        state.wants(owner, state.owed(owner)[k].template()),
{
    let owed = state.owed(owner);
    let pick = owed_to(owner);
    assert(owed.contains(owed[k]));
    state.shared.lemma_filter_map_contains(pick, owed[k]);
    let pending = choose|pending: PendingView| #[trigger]
        state.shared.contains(pending) && pick(pending) == Some(owed[k]);
    let q = choose|q: int| 0 <= q < state.shared.len() && state.shared[q] == pending;
    let c = choose|c: int|
        0 <= c < state.shared[q].claimants.len() && state.shared[q].claimants[c] == owner;
    assert(state.wants(state.shared[q].claimants[c], state.shared[q].event.template()));
}

/// The places in a sequence from which the elements of a filtered
/// sequence come: they rise, and each holds the element that it gave.
pub proof fn lemma_filter_places<A>(s: Seq<A>, pred: spec_fn(A) -> bool) -> (places: Seq<int>)
    ensures
        places.len() == s.filter(pred).len(),
        forall|k: int|
            0 <= k < places.len() ==> 0 <= #[trigger] places[k] < s.len() && s[places[k]]
                == s.filter(pred)[k] && pred(s[places[k]]),
        forall|k: int, l: int| 0 <= k < l < places.len() ==> places[k] < places[l],
        forall|i: int|
            0 <= i < s.len() && pred(s[i]) ==> exists|k: int|
                0 <= k < places.len() && #[trigger] places[k] == i,
    decreases s.len(),
{
    reveal(Seq::filter);
    if s.len() == 0 {
        Seq::empty()
    } else {
        let before = lemma_filter_places(s.drop_last(), pred);
        let places = if pred(s.last()) {
            before.push(s.len() - 1)
        } else {
            before
        };
        assert forall|i: int| 0 <= i < s.len() && pred(s[i]) implies exists|k: int|
            0 <= k < places.len() && #[trigger] places[k] == i by {
            if i < s.len() - 1 {
                assert(s.drop_last()[i] == s[i]);
                let k = choose|k: int| 0 <= k < before.len() && #[trigger] before[k] == i;
                assert(places[k] == i);
            } else {
                assert(places[places.len() - 1] == i);
            }
        }
        places
    }
}

/// Disposing of a subscription keeps the invariant, and leaves nothing of
/// the subscription behind.
pub proof fn lemma_without_wf(state: MpvView, owner: u64)
    requires
        state.wf(),
    ensures
        state.without(owner).wf(),
        !state.without(owner).is_subscribed(owner),
{
    let after = state.without(owner);
    let keep = not_owned_by(owner);
    let places = lemma_filter_places(state.interests, keep);
    lemma_released_wf(state, owner);
    assert forall|i: int| 0 <= i < after.interests.len() implies (
    #[trigger] after.interests[i]).owner != owner by {
        assert(after.interests[i] == state.interests[places[i]]);
    }
    assert forall|i: int| 0 <= i < after.interests.len() implies {
        &&& (#[trigger] after.interests[i]).owner < after.next_owner
        &&& after.interests[i].template.kind != EventKind::PropertyChange
            ==> after.interests[i].template.name == Seq::<char>::empty()
            && after.interests[i].property_id == 0
        &&& after.interests[i].template.kind == EventKind::PropertyChange
            ==> after.interests[i].property_id < after.next_property
    } by {
        assert(after.interests[i] == state.interests[places[i]]);
    }
    assert forall|i: int, j: int|
        0 <= i < after.interests.len() && 0 <= j < after.interests.len() && (
        #[trigger] after.interests[i]).template.kind == EventKind::PropertyChange && (
        #[trigger] after.interests[j]).template.kind
            == EventKind::PropertyChange implies (after.interests[i].template
        == after.interests[j].template <==> after.interests[i].property_id
        == after.interests[j].property_id) by {
        assert(after.interests[i] == state.interests[places[i]]);
        assert(after.interests[j] == state.interests[places[j]]);
    }
    assert forall|i: int, j: int|
        0 <= i < j < after.interests.len() && (#[trigger] after.interests[i]).owner == (
        #[trigger] after.interests[j]).owner implies after.interests[i].template
        != after.interests[j].template by {
        assert(after.interests[i] == state.interests[places[i]]);
        assert(after.interests[j] == state.interests[places[j]]);
        assert(places[i] < places[j]);
    }
    let released = state.released(owner);
    assert forall|q: int, c: int|
        0 <= q < after.shared.len() && 0 <= c < after.shared[q].claimants.len() implies after.wants(
        #[trigger] after.shared[q].claimants[c],
        after.shared[q].event.template(),
    ) by {
        let claimant = released.shared[q].claimants[c];
        let template = released.shared[q].event.template();
        assert(released.wants(claimant, template));
        assert(claimant != owner);
        let w = choose|w: int|
            0 <= w < state.interests.len() && (#[trigger] state.interests[w]).owner == claimant
                && state.interests[w].template == template;
        assert(keep(state.interests[w]));
        let k = choose|k: int| 0 <= k < places.len() && #[trigger] places[k] == w;
        assert(after.interests[k] == state.interests[w]);
    }
}

} // verus!
