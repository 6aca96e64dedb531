//! The mathematical model of the registry of interests and of the queue of
//! shared events, over which the contracts of the library are stated.

use vstd::prelude::*;
use crate::event::{Event, EventKind, LogLevel, Template};
use crate::raw::RawEvent;
use crate::request::EngineRequest;

verus! {

/// One subscriber's wish for the events that a template matches.
pub struct InterestView {
    /// The number of the subscription.
    pub owner: u64,
    /// What the subscription wants.
    pub template: Template,
    /// For a property: the number under which the engine observes it.
    /// Zero for every other kind.
    pub property_id: u64,
}

/// An event that was polled by one subscriber and is still owed to others.
pub struct PendingView {
    pub event: Event,
    /// The subscriptions that have yet to claim their copy.
    pub claimants: Seq<u64>,
}

/// The state that all subscribers share.
pub struct MpvView {
    /// Every wish of every live subscription, oldest first.
    pub interests: Seq<InterestView>,
    /// The events owed to subscribers, in the order in which they arrived.
    pub shared: Seq<PendingView>,
    /// The number that the next subscription gets.
    pub next_owner: u64,
    /// The least number that no property observation has had yet.
    pub next_property: u64,
}

/// The template of changes of the property `name`.
pub open spec fn property_template(name: Seq<char>) -> Template {
    Template { kind: EventKind::PropertyChange, name }
}

/// Picks the owner of an interest of another subscriber than `caller` that
/// matches `template`.
pub open spec fn other_claimant(caller: u64, template: Template) -> spec_fn(InterestView) -> Option<
    u64,
> {
    |interest: InterestView|
        if interest.owner != caller && interest.template == template {
            Some(interest.owner)
        } else {
            None
        }
}

/// Holds of every subscription number but `owner`.
pub open spec fn is_not(owner: u64) -> spec_fn(u64) -> bool {
    |claimant: u64| claimant != owner
}

/// Holds of the interests of every subscription but `owner`.
pub open spec fn not_owned_by(owner: u64) -> spec_fn(InterestView) -> bool {
    |interest: InterestView| interest.owner != owner
}

/// Picks the event of a pending entry that `owner` has yet to claim.
pub open spec fn owed_to(owner: u64) -> spec_fn(PendingView) -> Option<Event> {
    |pending: PendingView|
        if pending.claimants.contains(owner) {
            Some(pending.event)
        } else {
            None
        }
}

/// What is left of a pending entry once `owner` has no claim on it any
/// more: nothing, if no other claimant remains.
pub open spec fn without_claimant(owner: u64) -> spec_fn(PendingView) -> Option<PendingView> {
    |pending: PendingView|
        {
            let rest = pending.claimants.filter(is_not(owner));
            if rest.len() > 0 {
                Some(PendingView { event: pending.event, claimants: rest })
            } else {
                None
            }
        }
}

impl MpvView {
    /// The state with no subscription and nothing pending.
    pub open spec fn empty() -> MpvView {
        MpvView { interests: Seq::empty(), shared: Seq::empty(), next_owner: 0, next_property: 0 }
    }

    /// Whether any subscription wants events of `kind`.
    pub open spec fn holds_kind(self, kind: EventKind) -> bool {
        exists|i: int|
            0 <= i < self.interests.len() && (#[trigger] self.interests[i]).template.kind == kind
    }

    /// Whether any subscription wants what `template` matches.
    pub open spec fn holds(self, template: Template) -> bool {
        exists|i: int|
            0 <= i < self.interests.len() && (#[trigger] self.interests[i]).template == template
    }

    /// Whether the subscription `owner` wants what `template` matches.
    pub open spec fn wants(self, owner: u64, template: Template) -> bool {
        exists|i: int|
            0 <= i < self.interests.len() && (#[trigger] self.interests[i]).owner == owner
                && self.interests[i].template == template
    }

    /// Whether any subscription wants what an answer of the engine is
    /// matched by. An answer that nobody wants is dropped unread.
    pub open spec fn awaits(self, answer: RawEvent) -> bool {
        answer.spec_template() matches Some(template) && self.holds(template)
    }

    /// Whether the subscription `owner` has any interest registered.
    pub open spec fn is_subscribed(self, owner: u64) -> bool {
        exists|i: int| 0 <= i < self.interests.len() && (#[trigger] self.interests[i]).owner == owner
    }

    /// The number under which the engine observes the property `name`, if
    /// any subscription wants its changes.
    pub open spec fn observation(self, name: Seq<char>) -> Option<u64> {
        if self.holds(property_template(name)) {
            let i = choose|i: int|
                0 <= i < self.interests.len() && (#[trigger] self.interests[i]).template
                    == property_template(name);
            Some(self.interests[i].property_id)
        } else {
            None
        }
    }

    /// The subscriptions other than `caller` that want what `template`
    /// matches, in the order of their registration.
    pub open spec fn claimants(self, caller: u64, template: Template) -> Seq<u64> {
        self.interests.filter_map(other_claimant(caller, template))
    }

    /// The invariant of the shared state.
    pub open spec fn wf(self) -> bool {
        &&& forall|i: int|
            0 <= i < self.interests.len() ==> (#[trigger] self.interests[i]).owner < self.next_owner
        &&& forall|i: int|
            0 <= i < self.interests.len() && (#[trigger] self.interests[i]).template.kind
                != EventKind::PropertyChange ==> self.interests[i].template.name == Seq::<char>::empty()
                && self.interests[i].property_id == 0
        &&& forall|i: int|
            0 <= i < self.interests.len() && (#[trigger] self.interests[i]).template.kind
                == EventKind::PropertyChange ==> self.interests[i].property_id < self.next_property
        &&& forall|i: int, j: int|
            0 <= i < self.interests.len() && 0 <= j < self.interests.len() && (
            #[trigger] self.interests[i]).template.kind == EventKind::PropertyChange && (
            #[trigger] self.interests[j]).template.kind == EventKind::PropertyChange ==> (
            self.interests[i].template == self.interests[j].template <==> self.interests[i].property_id
                == self.interests[j].property_id)
        &&& forall|i: int, j: int|
            0 <= i < j < self.interests.len() && (#[trigger] self.interests[i]).owner == (
            #[trigger] self.interests[j]).owner ==> self.interests[i].template
                != self.interests[j].template
        &&& forall|q: int|
            0 <= q < self.shared.len() ==> (#[trigger] self.shared[q]).claimants.len() > 0
        &&& forall|q: int, c: int|
            0 <= q < self.shared.len() && 0 <= c < self.shared[q].claimants.len() ==> self.wants(
                #[trigger] self.shared[q].claimants[c],
                self.shared[q].event.template(),
            )
    }

    // ----- registration -----
    /// Whether `events[j]` is the first wish for its kind: no subscription
    /// holds the kind, and no earlier template of the batch is of it.
    pub open spec fn first_of_kind(self, events: Seq<Event>, j: int) -> bool {
        &&& !self.holds_kind(events[j].spec_kind())
        &&& forall|m: int| 0 <= m < j ==> (#[trigger] events[m]).spec_kind() != events[j].spec_kind()
    }

    /// The interest that the template `events[j]` becomes for `owner`. A
    /// property that is observed already keeps its number; a new one gets
    /// the first free number plus its place in the batch.
    pub open spec fn interest_for(self, owner: u64, events: Seq<Event>, j: int) -> InterestView {
        let template = events[j].template();
        InterestView {
            owner,
            template,
            property_id: if template.kind == EventKind::PropertyChange {
                match self.observation(template.name) {
                    Some(id) => id,
                    None => (self.next_property + j) as u64,
                }
            } else {
                0
            },
        }
    }

    /// The requests that are due when `events[j]` is registered: a kind is
    /// switched on by its first wish, log messages are asked for at the
    /// template's level before their kind is switched on, and a property is
    /// observed when no subscription wants it yet.
    pub open spec fn enabling_at(self, events: Seq<Event>, j: int) -> Seq<EngineRequest> {
        let switch_on = if self.first_of_kind(events, j) {
            seq![EngineRequest::RequestEvent { id: events[j].spec_kind().spec_id(), enable: true }]
        } else {
            Seq::empty()
        };
        match events[j] {
            Event::LogMessage { level, .. } => if self.first_of_kind(events, j) {
                seq![EngineRequest::RequestLogMessages { min_level: level }] + switch_on
            } else {
                Seq::empty()
            },
            Event::PropertyChange { name, data } => if self.holds(events[j].template()) {
                switch_on
            } else {
                switch_on + seq![
                    EngineRequest::ObserveProperty {
                        id: (self.next_property + j) as u64,
                        name,
                        format: data.spec_format(),
                    },
                ]
            },
            _ => switch_on,
        }
    }

    /// The requests that are due when the first `n` templates of `events`
    /// are registered, in the order of the templates.
    pub open spec fn enabling(self, events: Seq<Event>, n: nat) -> Seq<EngineRequest>
        decreases n,
    {
        if n == 0 {
            Seq::empty()
        } else {
            self.enabling(events, (n - 1) as nat) + self.enabling_at(events, n - 1)
        }
    }

    /// Whether two templates of the batch match the same events.
    pub open spec fn has_duplicates(events: Seq<Event>) -> bool {
        exists|i: int, j: int|
            0 <= i < j < events.len() && (#[trigger] events[i]).template() == (
            #[trigger] events[j]).template()
    }

    /// Whether there are numbers left for one more subscription with
    /// `n` templates.
    pub open spec fn has_room(self, n: nat) -> bool {
        self.next_owner < u64::MAX && self.next_property + n <= u64::MAX
    }

    /// The state after a new subscription has registered `events`.
    pub open spec fn observed(self, events: Seq<Event>) -> MpvView {
        MpvView {
            interests: self.interests + Seq::new(
                events.len(),
                |j: int| self.interest_for(self.next_owner, events, j),
            ),
            shared: self.shared,
            next_owner: (self.next_owner + 1) as u64,
            next_property: (self.next_property + events.len()) as u64,
        }
    }

    // ----- draining and claiming -----
    /// The state after `caller` has polled `event`: the event is queued for
    /// the other subscriptions that want it, if there are any.
    pub open spec fn deposited(self, caller: u64, event: Event) -> MpvView {
        let others = self.claimants(caller, event.template());
        if others.len() > 0 {
            MpvView { shared: self.shared.push(PendingView { event, claimants: others }), ..self }
        } else {
            self
        }
    }

    /// The events in the queue that `owner` has yet to claim, oldest first.
    pub open spec fn owed(self, owner: u64) -> Seq<Event> {
        self.shared.filter_map(owed_to(owner))
    }

    /// The state after `owner` has given up every claim: entries on which
    /// nobody else has a claim are gone, the others keep their order.
    pub open spec fn released(self, owner: u64) -> MpvView {
        MpvView { shared: self.shared.filter_map(without_claimant(owner)), ..self }
    }

    // ----- disposal -----
    /// Whether the interest at `i` is the last one for its kind: every
    /// other interest of the kind belongs to the same subscription and was
    /// registered earlier.
    pub open spec fn last_of_kind(self, i: int) -> bool {
        forall|j: int|
            0 <= j < self.interests.len() && j != i && (#[trigger] self.interests[j]).template.kind
                == self.interests[i].template.kind ==> self.interests[j].owner
                == self.interests[i].owner && j < i
    }

    /// Whether the interest at `i` is the last one for its template.
    pub open spec fn last_of_template(self, i: int) -> bool {
        forall|j: int|
            0 <= j < self.interests.len() && j != i && (#[trigger] self.interests[j]).template
                == self.interests[i].template ==> self.interests[j].owner == self.interests[i].owner
                && j < i
    }

    /// The requests that are due when the interest at `i` is withdrawn
    /// together with all other interests of its subscription: the
    /// observation of a property ends with the last wish for it, log
    /// messages are turned off before their kind is switched off, and a
    /// kind is switched off with the last wish for it.
    pub open spec fn disabling_at(self, i: int) -> Seq<EngineRequest> {
        let kind = self.interests[i].template.kind;
        let switch_off = if self.last_of_kind(i) {
            seq![EngineRequest::RequestEvent { id: kind.spec_id(), enable: false }]
        } else {
            Seq::empty()
        };
        if kind == EventKind::PropertyChange {
            if self.last_of_template(i) {
                seq![EngineRequest::UnobserveProperty { id: self.interests[i].property_id }]
                    + switch_off
            } else {
                switch_off
            }
        } else if kind == EventKind::LogMessage {
            if self.last_of_kind(i) {
                seq![EngineRequest::RequestLogMessages { min_level: LogLevel::Off }] + switch_off
            } else {
                Seq::empty()
            }
        } else {
            switch_off
        }
    }

    /// The requests that are due when `owner` withdraws those of its
    /// interests that are among the first `n`, oldest first.
    pub open spec fn disabling(self, owner: u64, n: nat) -> Seq<EngineRequest>
        decreases n,
    {
        if n == 0 {
            Seq::empty()
        } else if self.interests[n - 1].owner == owner {
            self.disabling(owner, (n - 1) as nat) + self.disabling_at(n - 1)
        } else {
            self.disabling(owner, (n - 1) as nat)
        }
    }

    /// The state after the subscription `owner` has been disposed of: its
    /// interests and its claims are gone.
    pub open spec fn without(self, owner: u64) -> MpvView {
        MpvView {
            interests: self.interests.filter(not_owned_by(owner)),
            shared: self.released(owner).shared,
            ..self
        }
    }
}

} // verus!
