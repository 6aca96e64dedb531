//! The state that all subscribers share: the registry of interests and the
//! queue of events that are owed to more than the subscriber that polled
//! them.

use vstd::prelude::*;
use crate::error::Error;
use crate::event::{Event, EventKind, LogLevel, Template};
use crate::iter::{EventIter, EventIterView, Stage};
use crate::model::{
    is_not, not_owned_by, other_claimant, owed_to, property_template, without_claimant,
    InterestView, MpvView, PendingView,
};
use crate::preserve::{
    lemma_deposited_wf, lemma_observed_wf, lemma_released_wf, lemma_without_wf,
};
use crate::raw::{RawData, RawEvent, RawKind};
use crate::request::EngineRequest;

verus! {

/// One subscriber's wish, as it is stored.
pub(crate) struct Interest {
    pub(crate) owner: u64,
    pub(crate) kind: EventKind,
    pub(crate) name: String,
    pub(crate) property_id: u64,
}

impl View for Interest {
    type V = InterestView;

    closed spec fn view(&self) -> InterestView {
        InterestView {
            owner: self.owner,
            template: Template { kind: self.kind, name: self.name@ },
            property_id: self.property_id,
        }
    }
}

/// An event that is owed to subscribers, as it is stored.
pub(crate) struct Pending {
    pub(crate) event: Event,
    pub(crate) claimants: Vec<u64>,
}

impl View for Pending {
    type V = PendingView;

    closed spec fn view(&self) -> PendingView {
        PendingView { event: self.event, claimants: self.claimants@ }
    }
}

/// The shared state of one engine: who wants which events, and which
/// events are still owed to whom.
pub struct Mpv {
    pub(crate) interests: Vec<Interest>,
    pub(crate) shared: Vec<Pending>,
    pub(crate) next_owner: u64,
    pub(crate) next_property: u64,
}

/// The interests that a stored list stands for.
pub(crate) closed spec fn interest_views(stored: Seq<Interest>) -> Seq<InterestView> {
    Seq::new(stored.len(), |i: int| stored[i]@)
}

/// The queue that a stored list stands for.
pub(crate) closed spec fn pending_views(stored: Seq<Pending>) -> Seq<PendingView> {
    Seq::new(stored.len(), |q: int| stored[q]@)
}

impl View for Mpv {
    type V = MpvView;

    closed spec fn view(&self) -> MpvView {
        MpvView {
            interests: interest_views(self.interests@),
            shared: pending_views(self.shared@),
            next_owner: self.next_owner,
            next_property: self.next_property,
        }
    }
}

impl Mpv {
    /// What construction answers for the client API version that the
    /// library was built for and the one that was loaded.
    pub open spec fn version_check(linked: u64, loaded: u64) -> Result<(), Error> {
        if linked == loaded {
            Ok(())
        } else {
            Err(Error::VersionMismatch { linked, loaded })
        }
    }

    /// The shared state of an engine that nobody has subscribed to yet.
    /// Fails when the engine that was loaded speaks another client API
    /// version than `linked`.
    pub fn new(linked: u64, loaded: u64) -> (hub: Result<Mpv, Error>)
        ensures
            match hub {
                Ok(hub) => linked == loaded && hub@ == MpvView::empty() && hub@.wf(),
                Err(e) => Mpv::version_check(linked, loaded) == Err::<(), Error>(e),
            },
    {
        if linked != loaded {
            return Err(Error::VersionMismatch { linked, loaded });
        }
        let hub = Mpv {
            interests: Vec::new(),
            shared: Vec::new(),
            next_owner: 0,
            next_property: 0,
        };
        assert(hub@.interests =~= Seq::empty());
        assert(hub@.shared =~= Seq::empty());
        Ok(hub)
    }

    /// How many interests are registered.
    pub fn interest_count(&self) -> (n: usize)
        ensures
            n == self@.interests.len(),
    {
        self.interests.len()
    }

    /// How many events are owed to subscribers.
    pub fn shared_count(&self) -> (n: usize)
        ensures
            n == self@.shared.len(),
    {
        self.shared.len()
    }

    /// Whether any subscription wants events of `kind`.
    pub fn holds_kind(&self, kind: EventKind) -> (yes: bool)
        ensures
            yes == self@.holds_kind(kind),
    {
        let mut i: usize = 0;
        while i < self.interests.len()
            invariant
                i <= self.interests@.len(),
                forall|k: int| 0 <= k < i ==> (#[trigger] self@.interests[k]).template.kind != kind,
            decreases self.interests@.len() - i,
        {
            if self.interests[i].kind == kind {
                assert(self@.interests[i as int].template.kind == kind);
                return true;
            }
            i = i + 1;
        }
        false
    }

    /// Whether the stored interest is in what `event` is matched by.
    fn matches(&self, i: usize, event: &Event) -> (yes: bool)
        requires
            self@.wf(),
            i < self@.interests.len(),
        ensures
            yes == (self@.interests[i as int].template == event.template()),
    {
        let interest = &self.interests[i];
        assert(self@.interests[i as int] == interest@);
        match event {
            Event::PropertyChange { name, .. } => {
                match interest.kind {
                    EventKind::PropertyChange => interest.name == *name,
                    _ => false,
                }
            },
            _ => {
                let same = interest.kind == event.kind();
                assert(same ==> interest@.template.name =~= Seq::<char>::empty());
                same
            },
        }
    }

    /// The number under which the engine observes the property that the
    /// template names, if any subscription wants its changes.
    pub fn observation(&self, name: &String) -> (id: Option<u64>)
        requires
            self@.wf(),
        ensures
            id == self@.observation(name@),
    {
        let mut i: usize = 0;
        while i < self.interests.len()
            invariant
                self@.wf(),
                i <= self.interests@.len(),
                forall|k: int|
                    0 <= k < i ==> (#[trigger] self@.interests[k]).template != property_template(
                        name@,
                    ),
            decreases self.interests@.len() - i,
        {
            let interest = &self.interests[i];
            assert(self@.interests[i as int] == interest@);
            let found = match interest.kind {
                EventKind::PropertyChange => interest.name == *name,
                _ => false,
            };
            if found {
                proof {
                    assert(self@.interests[i as int].template == property_template(name@));
                    let j = choose|j: int|
                        0 <= j < self@.interests.len() && (#[trigger] self@.interests[j]).template
                            == property_template(name@);
                    assert(self@.interests[j].template == self@.interests[i as int].template);
                }
                return Some(interest.property_id);
            }
            i = i + 1;
        }
        None
    }

    /// Whether the subscription `owner` wants what `event` is matched by.
    pub fn wants(&self, owner: u64, event: &Event) -> (yes: bool)
        requires
            self@.wf(),
        ensures
            yes == self@.wants(owner, event.template()),
    {
        let mut i: usize = 0;
        while i < self.interests.len()
            invariant
                self@.wf(),
                i <= self.interests@.len(),
                forall|k: int|
                    0 <= k < i ==> !((#[trigger] self@.interests[k]).owner == owner
                        && self@.interests[k].template == event.template()),
            decreases self.interests@.len() - i,
        {
            if self.interests[i].owner == owner && self.matches(i, event) {
                assert(self@.interests[i as int].owner == owner);
                return true;
            }
            i = i + 1;
        }
        false
    }

    /// Whether any subscription wants what an answer of the engine is
    /// matched by. The payload is not read beyond the name of the
    /// property.
    pub fn awaits(&self, answer: &RawEvent) -> (yes: bool)
        requires
            self@.wf(),
        ensures
            yes == self@.awaits(*answer),
    {
        match answer.kind() {
            RawKind::Known(EventKind::PropertyChange) => match &answer.data {
                RawData::Property { name, .. } => self.observation(name).is_some(),
                _ => false,
            },
            RawKind::Known(kind) => {
                let held = self.holds_kind(kind);
                proof {
                    let template = Template { kind, name: Seq::empty() };
                    if held {
                        let i = choose|i: int|
                            0 <= i < self@.interests.len() && (
                            #[trigger] self@.interests[i]).template.kind == kind;
                        assert(self@.interests[i].template == template);
                    }
                    if self@.holds(template) {
                        let i = choose|i: int|
                            0 <= i < self@.interests.len() && (
                            #[trigger] self@.interests[i]).template == template;
                        assert(self@.interests[i].template.kind == kind);
                    }
                }
                held
            },
            _ => false,
        }
    }

    /// The subscriptions other than `caller` that want what `event` is
    /// matched by, in the order of their registration.
    pub fn claimants(&self, caller: u64, event: &Event) -> (others: Vec<u64>)
        requires
            self@.wf(),
        ensures
            others@ == self@.claimants(caller, event.template()),
    {
        let mut others: Vec<u64> = Vec::new();
        let mut i: usize = 0;
        while i < self.interests.len()
            invariant
                self@.wf(),
                i <= self.interests@.len(),
                others@ == self@.interests.take(i as int).filter_map(
                    other_claimant(caller, event.template()),
                ),
            decreases self.interests@.len() - i,
        {
            proof {
                self@.interests.lemma_filter_map_take_succ(
                    other_claimant(caller, event.template()),
                    i as int,
                );
            }
            if self.interests[i].owner != caller && self.matches(i, event) {
                others.push(self.interests[i].owner);
            }
            i = i + 1;
        }
        assert(self@.interests.take(i as int) =~= self@.interests);
        others
    }
    /// Whether two templates of the batch match the same events.
    pub fn has_duplicates(events: &[Event]) -> (found: bool)
        ensures
            found == MpvView::has_duplicates(events@),
    {
        let mut j: usize = 0;
        while j < events.len()
            invariant
                j <= events@.len(),
                forall|a: int, b: int|
                    0 <= a < b < j ==> (#[trigger] events@[a]).template() != (
                    #[trigger] events@[b]).template(),
            decreases events@.len() - j,
        {
            let mut i: usize = 0;
            while i < j
                invariant
                    i <= j < events@.len(),
                    forall|a: int|
                        0 <= a < i ==> (#[trigger] events@[a]).template()
                            != events@[j as int].template(),
                decreases j - i,
            {
                if events[i].structural_eq(&events[j]) {
                    assert(events@[i as int].template() == events@[j as int].template());
                    return true;
                }
                i = i + 1;
            }
            j = j + 1;
        }
        false
    }

    /// Whether one of the first `j` templates of the batch is of `kind`.
    fn kind_among_first(events: &[Event], j: usize, kind: EventKind) -> (found: bool)
        requires
            j <= events@.len(),
        ensures
            found == exists|m: int| 0 <= m < j && (#[trigger] events@[m]).spec_kind() == kind,
    {
        let mut m: usize = 0;
        while m < j
            invariant
                m <= j <= events@.len(),
                forall|a: int| 0 <= a < m ==> (#[trigger] events@[a]).spec_kind() != kind,
            decreases j - m,
        {
            if events[m].kind() == kind {
                return true;
            }
            m = m + 1;
        }
        false
    }

    /// Whether there are numbers left for one more subscription with `n`
    /// templates.
    pub fn has_room(&self, n: usize) -> (yes: bool)
        ensures
            yes == self@.has_room(n as nat),
    {
        self.next_owner < u64::MAX && n as u64 <= u64::MAX - self.next_property
    }

    /// Makes a subscription to the events that the templates match.
    ///
    /// Two templates of one subscription that match the same events are
    /// refused, and nothing changes. Otherwise the templates are registered
    /// under a number of their own, and the requests that are now due are
    /// handed back for the caller to put to the engine, in their order.
    pub fn observe_events(&mut self, events: &[Event]) -> (outcome: Result<
        (EventIter, Vec<EngineRequest>),
        Error,
    >)
        requires
            old(self)@.wf(),
            old(self)@.has_room(events@.len()),
        ensures
            final(self)@.wf(),
            match outcome {
                Ok((iter, requests)) => {
                    &&& !MpvView::has_duplicates(events@)
                    &&& final(self)@ == old(self)@.observed(events@)
                    &&& requests@ == old(self)@.enabling(events@, events@.len())
                    &&& iter@ == (EventIterView {
                        id: old(self)@.next_owner,
                        stage: Stage::Fresh,
                        waited: false,
                    })
                },
                Err(e) => {
                    &&& MpvView::has_duplicates(events@)
                    &&& e == Error::DuplicateInterest
                    &&& final(self)@ == old(self)@
                },
            },
    {
        if Mpv::has_duplicates(events) {
            return Err(Error::DuplicateInterest);
        }
        let owner = self.next_owner;
        let ghost before = self@;
        let mut fresh: Vec<Interest> = Vec::new();
        let mut requests: Vec<EngineRequest> = Vec::new();
        let mut j: usize = 0;
        while j < events.len()
            invariant
                self@ == before,
                before.wf(),
                before.has_room(events@.len()),
                owner == before.next_owner,
                j <= events@.len(),
                fresh@.len() == j,
                forall|m: int|
                    0 <= m < j ==> (#[trigger] fresh@[m])@ == before.interest_for(owner, events@, m),
                requests@ == before.enabling(events@, j as nat),
            decreases events@.len() - j,
        {
            let event = &events[j];
            let kind = event.kind();
            let first = !self.holds_kind(kind) && !Mpv::kind_among_first(events, j, kind);
            assert(first == before.first_of_kind(events@, j as int));
            let ghost due = before.enabling_at(events@, j as int);
            let ghost so_far = requests@;
            match event {
                Event::LogMessage { level, .. } => {
                    if first {
                        requests.push(EngineRequest::RequestLogMessages { min_level: *level });
                        requests.push(EngineRequest::RequestEvent { id: kind.id(), enable: true });
                    }
                    fresh.push(Interest { owner, kind, name: String::new(), property_id: 0 });
                },
                Event::PropertyChange { name, data } => {
                    if first {
                        requests.push(EngineRequest::RequestEvent { id: kind.id(), enable: true });
                    }
                    assert(event.template() == property_template(name@));
                    let property_id = match self.observation(name) {
                        Some(id) => id,
                        None => {
                            let id = self.next_property + j as u64;
                            requests.push(
                                EngineRequest::ObserveProperty {
                                    id,
                                    name: name.clone(),
                                    format: data.format(),
                                },
                            );
                            id
                        },
                    };
                    fresh.push(Interest { owner, kind, name: name.clone(), property_id });
                },
                _ => {
                    if first {
                        requests.push(EngineRequest::RequestEvent { id: kind.id(), enable: true });
                    }
                    fresh.push(Interest { owner, kind, name: String::new(), property_id: 0 });
                },
            }
            assert(requests@ =~= so_far + due);
            assert(fresh@[j as int]@ == before.interest_for(owner, events@, j as int));
            j = j + 1;
        }
        proof {
            lemma_observed_wf(before, events@);
        }
        self.interests.append(&mut fresh);
        self.next_owner = self.next_owner + 1;
        self.next_property = self.next_property + events.len() as u64;
        assert(self@.interests =~= before.observed(events@).interests);
        assert(self@.shared =~= before.shared);
        Ok((EventIter::fresh(owner), requests))
    }

    /// Takes in an event that `caller` has polled: queues it for the other
    /// subscriptions that want it, and says whether `caller` wants it
    /// itself and whether it was queued.
    pub(crate) fn deposit(&mut self, caller: u64, event: &Event) -> (taken: (bool, bool))
        requires
            old(self)@.wf(),
        ensures
            final(self)@.wf(),
            final(self)@ == old(self)@.deposited(caller, *event),
            taken.0 == old(self)@.wants(caller, event.template()),
            taken.1 == (old(self)@.claimants(caller, event.template()).len() > 0),
    {
        let mine = self.wants(caller, event);
        let others = self.claimants(caller, event);
        proof {
            lemma_deposited_wf(self@, caller, *event);
        }
        let queued = others.len() > 0;
        if queued {
            let ghost before = self@;
            self.shared.push(Pending { event: event.duplicate(), claimants: others });
            assert(self@.shared =~= before.deposited(caller, *event).shared);
            assert(self@.interests =~= before.interests);
        }
        (mine, queued)
    }

    /// The claimants of an entry other than `owner`, in their order.
    fn others_than(claimants: &Vec<u64>, owner: u64) -> (rest: Vec<u64>)
        ensures
            rest@ == claimants@.filter(is_not(owner)),
    {
        let mut rest: Vec<u64> = Vec::new();
        let mut c: usize = 0;
        while c < claimants.len()
            invariant
                c <= claimants@.len(),
                rest@ == claimants@.take(c as int).filter(is_not(owner)),
            decreases claimants@.len() - c,
        {
            proof {
                assert(claimants@.take(c + 1) =~= claimants@.take(c as int).push(claimants@[c as int]));
                claimants@.take(c as int).lemma_filter_push(claimants@[c as int], is_not(owner));
            }
            if claimants[c] != owner {
                rest.push(claimants[c]);
            }
            c = c + 1;
        }
        assert(claimants@.take(c as int) =~= claimants@);
        rest
    }

    /// Whether `owner` is among the claimants of an entry.
    fn has_claim(claimants: &Vec<u64>, owner: u64) -> (yes: bool)
        ensures
            yes == claimants@.contains(owner),
    {
        let mut c: usize = 0;
        while c < claimants.len()
            invariant
                c <= claimants@.len(),
                forall|k: int| 0 <= k < c ==> claimants@[k] != owner,
            decreases claimants@.len() - c,
        {
            if claimants[c] == owner {
                return true;
            }
            c = c + 1;
        }
        false
    }

    /// Hands out the events that are owed to `owner`, oldest first, and
    /// strikes its claims. An entry that nobody else has a claim on leaves
    /// the queue.
    pub(crate) fn claim(&mut self, owner: u64) -> (batch: Vec<Event>)
        requires
            old(self)@.wf(),
        ensures
            final(self)@.wf(),
            batch@ == old(self)@.owed(owner),
            final(self)@ == old(self)@.released(owner),
    {
        proof {
            lemma_released_wf(self@, owner);
        }
        self.strike(owner)
    }

    /// Strikes the claims of `owner` and hands out the events that they
    /// were on, oldest first.
    fn strike(&mut self, owner: u64) -> (batch: Vec<Event>)
        ensures
            batch@ == old(self)@.owed(owner),
            final(self)@ == old(self)@.released(owner),
    {
        let ghost before = self@;
        let mut batch: Vec<Event> = Vec::new();
        let mut kept: Vec<Pending> = Vec::new();
        let mut q: usize = 0;
        while q < self.shared.len()
            invariant
                self@ == before,
                q <= self.shared@.len(),
                batch@ == before.shared.take(q as int).filter_map(owed_to(owner)),
                pending_views(kept@) == before.shared.take(q as int).filter_map(
                    without_claimant(owner),
                ),
            decreases self.shared@.len() - q,
        {
            proof {
                before.shared.lemma_filter_map_take_succ(owed_to(owner), q as int);
                before.shared.lemma_filter_map_take_succ(without_claimant(owner), q as int);
            }
            let pending = &self.shared[q];
            assert(before.shared[q as int] == pending@);
            let ghost kept_before = pending_views(kept@);
            if Mpv::has_claim(&pending.claimants, owner) {
                batch.push(pending.event.duplicate());
            }
            let rest = Mpv::others_than(&pending.claimants, owner);
            if rest.len() > 0 {
                kept.push(Pending { event: pending.event.duplicate(), claimants: rest });
                assert(pending_views(kept@) =~= kept_before.push(
                    PendingView { event: pending.event, claimants: rest@ },
                ));
            }
            q = q + 1;
        }
        assert(before.shared.take(q as int) =~= before.shared);
        self.shared = kept;
        assert(self@.interests =~= before.interests);
        batch
    }

    /// Whether the interest at `i` is the last one for its kind.
    fn last_of_kind(&self, i: usize) -> (yes: bool)
        requires
            i < self@.interests.len(),
        ensures
            yes == self@.last_of_kind(i as int),
    {
        let mut j: usize = 0;
        while j < self.interests.len()
            invariant
                i < self.interests@.len(),
                j <= self.interests@.len(),
                forall|k: int|
                    0 <= k < j && k != i && (#[trigger] self@.interests[k]).template.kind
                        == self@.interests[i as int].template.kind ==> self@.interests[k].owner
                        == self@.interests[i as int].owner && k < i,
            decreases self.interests@.len() - j,
        {
            if j != i && self.interests[j].kind == self.interests[i].kind && !(
            self.interests[j].owner == self.interests[i].owner && j < i) {
                assert(self@.interests[j as int].template.kind
                    == self@.interests[i as int].template.kind);
                return false;
            }
            j = j + 1;
        }
        true
    }

    /// Whether the interest at `i` is the last one for its template.
    fn last_of_template(&self, i: usize) -> (yes: bool)
        requires
            i < self@.interests.len(),
        ensures
            yes == self@.last_of_template(i as int),
    {
        let mut j: usize = 0;
        while j < self.interests.len()
            invariant
                i < self.interests@.len(),
                j <= self.interests@.len(),
                forall|k: int|
                    0 <= k < j && k != i && (#[trigger] self@.interests[k]).template
                        == self@.interests[i as int].template ==> self@.interests[k].owner
                        == self@.interests[i as int].owner && k < i,
            decreases self.interests@.len() - j,
        {
            if j != i && self.interests[j].kind == self.interests[i].kind && self.interests[j].name
                == self.interests[i].name && !(self.interests[j].owner == self.interests[i].owner
                && j < i) {
                assert(self@.interests[j as int].template == self@.interests[i as int].template);
                return false;
            }
            j = j + 1;
        }
        true
    }

    /// The requests that are due when `owner` withdraws all its interests.
    fn disabling(&self, owner: u64) -> (requests: Vec<EngineRequest>)
        ensures
            requests@ == self@.disabling(owner, self@.interests.len()),
    {
        let mut requests: Vec<EngineRequest> = Vec::new();
        let mut i: usize = 0;
        while i < self.interests.len()
            invariant
                i <= self.interests@.len(),
                requests@ == self@.disabling(owner, i as nat),
            decreases self.interests@.len() - i,
        {
            if self.interests[i].owner == owner {
                let ghost so_far = requests@;
                let kind = self.interests[i].kind;
                let last = self.last_of_kind(i);
                match kind {
                    EventKind::PropertyChange => {
                        if self.last_of_template(i) {
                            requests.push(
                                EngineRequest::UnobserveProperty {
                                    id: self.interests[i].property_id,
                                },
                            );
                        }
                        if last {
                            requests.push(
                                EngineRequest::RequestEvent { id: kind.id(), enable: false },
                            );
                        }
                    },
                    EventKind::LogMessage => {
                        if last {
                            requests.push(
                                EngineRequest::RequestLogMessages { min_level: LogLevel::Off },
                            );
                            requests.push(
                                EngineRequest::RequestEvent { id: kind.id(), enable: false },
                            );
                        }
                    },
                    _ => {
                        if last {
                            requests.push(
                                EngineRequest::RequestEvent { id: kind.id(), enable: false },
                            );
                        }
                    },
                }
                assert(requests@ =~= so_far + self@.disabling_at(i as int));
            }
            i = i + 1;
        }
        requests
    }

    /// Ends the subscription `owner`: its interests leave the registry, its
    /// claims on queued events are struck, and the requests that switch
    /// off what nobody wants any more are handed back.
    pub(crate) fn withdraw(&mut self, owner: u64) -> (requests: Vec<EngineRequest>)
        requires
            old(self)@.wf(),
        ensures
            final(self)@.wf(),
            final(self)@ == old(self)@.without(owner),
            requests@ == old(self)@.disabling(owner, old(self)@.interests.len()),
    {
        let ghost before = self@;
        let requests = self.disabling(owner);
        let _ = self.strike(owner);
        let ghost released = self@;
        let mut kept: Vec<Interest> = Vec::new();
        let mut i: usize = 0;
        while i < self.interests.len()
            invariant
                self@ == released,
                released.interests == before.interests,
                i <= self.interests@.len(),
                interest_views(kept@) == before.interests.take(i as int).filter(
                    not_owned_by(owner),
                ),
            decreases self.interests@.len() - i,
        {
            let interest = &self.interests[i];
            proof {
                assert(before.interests[i as int] == interest@);
                assert(before.interests.take(i + 1) =~= before.interests.take(i as int).push(
                    before.interests[i as int],
                ));
                before.interests.take(i as int).lemma_filter_push(
                    before.interests[i as int],
                    not_owned_by(owner),
                );
            }
            if interest.owner != owner {
                let ghost kept_before = interest_views(kept@);
                kept.push(
                    Interest {
                        owner: interest.owner,
                        kind: interest.kind,
                        name: interest.name.clone(),
                        property_id: interest.property_id,
                    },
                );
                assert(interest_views(kept@) =~= kept_before.push(interest@));
            }
            i = i + 1;
        }
        assert(before.interests.take(i as int) =~= before.interests);
        self.interests = kept;
        proof {
            lemma_without_wf(before, owner);
            assert(self@ == before.without(owner));
        }
        requests
    }
}

} // verus!
