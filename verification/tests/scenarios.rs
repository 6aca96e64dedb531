use mpv_events::{
    DrainPass, Drained, EngineRequest, Error, Event, EventIter, Format, LogLevel, Mpv,
    PropertyData, Pull, RawData, RawEvent, RawValue, Stage, WakeSignal,
};

fn plain(event_id: u32) -> RawEvent {
    RawEvent { event_id, error: 0, data: RawData::Absent }
}

fn flag_change(name: &str, value: i64) -> RawEvent {
    RawEvent {
        event_id: 22,
        error: 0,
        data: RawData::Property {
            name: name.to_string(),
            format: 3,
            value: Some(RawValue::Integer(value)),
        },
    }
}

fn switch(id: u32, enable: bool) -> EngineRequest {
    EngineRequest::RequestEvent { id, enable }
}

/// Runs one whole pass of `iter` over `answers` and hands out its batch.
fn pass_over(
    iter: &mut EventIter,
    hub: &mut Mpv,
    signal: &WakeSignal,
    answers: &[RawEvent],
) -> (Option<Vec<Event>>, usize) {
    let mut pass = DrainPass::new();
    let taken = iter.drain_all(hub, &mut pass, answers);
    (iter.finish_drain(pass, signal).batch, taken)
}

#[test]
fn unobserved_event_is_dropped_and_the_rest_arrives_in_order() {
    let signal = WakeSignal::new();
    let mut hub = Mpv::new(1, 1).unwrap();
    let (mut iter, requests) = hub.observe_events(&[Event::Idle, Event::FileLoaded]).unwrap();
    assert_eq!(requests, vec![switch(11, true), switch(8, true)]);
    assert_eq!(iter.next(&mut hub), Pull::Drain);
    let answers = vec![plain(6), plain(8), plain(11), plain(0), plain(0)];
    let (batch, taken) = pass_over(&mut iter, &mut hub, &signal, &answers);
    assert_eq!(taken, 5);
    assert_eq!(batch, Some(vec![Event::FileLoaded, Event::Idle]));
    assert_eq!(hub.shared_count(), 0);
    assert_eq!(iter.stage(), Stage::Active);
}

#[test]
fn one_property_change_reaches_both_subscribers_once() {
    let signal = WakeSignal::new();
    let mut hub = Mpv::new(1, 1).unwrap();
    let pause = Event::empty_propertychange("pause".to_string());
    let (mut first, first_requests) = hub.observe_events(&[pause.clone()]).unwrap();
    let (mut second, second_requests) = hub.observe_events(&[pause.clone()]).unwrap();
    assert_eq!(
        first_requests,
        vec![
            switch(22, true),
            EngineRequest::ObserveProperty { id: 0, name: "pause".to_string(), format: Format::Flag },
        ]
    );
    assert_eq!(second_requests, vec![]);

    let change = Event::PropertyChange { name: "pause".to_string(), data: PropertyData::Flag(true) };
    assert_eq!(first.next(&mut hub), Pull::Drain);
    let answers = vec![flag_change("pause", 1), plain(0), plain(0)];
    let (batch, taken) = pass_over(&mut first, &mut hub, &signal, &answers);
    assert_eq!(taken, 3);
    assert_eq!(batch, Some(vec![change.clone()]));
    assert_eq!(hub.shared_count(), 1);

    // The second subscriber polls first, finds the engine empty, and then
    // takes its copy from the queue.
    assert_eq!(second.next(&mut hub), Pull::Drain);
    let (nothing, _) = pass_over(&mut second, &mut hub, &signal, &[plain(0), plain(0)]);
    assert_eq!(nothing, None);
    assert_eq!(second.next(&mut hub), Pull::Ready(vec![change]));
    assert_eq!(hub.shared_count(), 0);

    // Nobody gets the event a second time.
    assert_eq!(first.next(&mut hub), Pull::Wait);
    assert_eq!(second.next(&mut hub), Pull::Wait);
}

#[test]
fn disjoint_subscribers_get_only_their_own_kinds() {
    let signal = WakeSignal::new();
    let mut hub = Mpv::new(1, 1).unwrap();
    let (mut seeker, _) = hub.observe_events(&[Event::Seek, Event::PlaybackRestart]).unwrap();
    let (mut ticker, _) = hub.observe_events(&[Event::Tick]).unwrap();
    assert_eq!(seeker.next(&mut hub), Pull::Drain);
    let answers = vec![plain(14), plain(20), plain(14), plain(21), plain(0), plain(0)];
    let (batch, _) = pass_over(&mut seeker, &mut hub, &signal, &answers);
    assert_eq!(batch, Some(vec![Event::Seek, Event::PlaybackRestart]));
    assert_eq!(hub.shared_count(), 2);
    assert_eq!(ticker.next(&mut hub), Pull::Drain);
    let (nothing, _) = pass_over(&mut ticker, &mut hub, &signal, &[plain(0), plain(0)]);
    assert_eq!(nothing, None);
    assert_eq!(ticker.next(&mut hub), Pull::Ready(vec![Event::Tick, Event::Tick]));
    assert_eq!(hub.shared_count(), 0);
}

#[test]
fn property_changes_are_matched_by_name() {
    let signal = WakeSignal::new();
    let mut hub = Mpv::new(1, 1).unwrap();
    let (mut volume, _) =
        hub.observe_events(&[Event::empty_propertychange("volume".to_string())]).unwrap();
    let (mut pause, _) =
        hub.observe_events(&[Event::empty_propertychange("pause".to_string())]).unwrap();
    assert_eq!(volume.next(&mut hub), Pull::Drain);
    let answers = vec![flag_change("pause", 0), flag_change("mute", 1), plain(0), plain(0)];
    let (batch, _) = pass_over(&mut volume, &mut hub, &signal, &answers);
    assert_eq!(batch, None);
    assert_eq!(hub.shared_count(), 1);
    assert_eq!(pause.next(&mut hub), Pull::Drain);
    let (nothing, _) = pass_over(&mut pause, &mut hub, &signal, &[plain(0), plain(0)]);
    assert_eq!(nothing, None);
    let expected = Event::PropertyChange { name: "pause".to_string(), data: PropertyData::Flag(false) };
    assert_eq!(pause.next(&mut hub), Pull::Ready(vec![expected]));
}

#[test]
fn same_template_twice_is_refused_and_changes_nothing() {
    let mut hub = Mpv::new(1, 1).unwrap();
    let outcome = hub.observe_events(&[Event::Idle, Event::Seek, Event::Idle]);
    assert_eq!(outcome.err(), Some(Error::DuplicateInterest));
    assert_eq!(hub.interest_count(), 0);
    let twice = [
        Event::empty_propertychange("pause".to_string()),
        Event::PropertyChange { name: "pause".to_string(), data: PropertyData::Int64(3) },
    ];
    assert_eq!(hub.observe_events(&twice).err(), Some(Error::DuplicateInterest));
    assert!(Mpv::has_duplicates(&twice));
    let levels = [Event::empty_logmessage(LogLevel::Info), Event::empty_logmessage(LogLevel::Warn)];
    assert_eq!(hub.observe_events(&levels).err(), Some(Error::DuplicateInterest));
    let apart = [
        Event::empty_propertychange("pause".to_string()),
        Event::empty_propertychange("volume".to_string()),
    ];
    assert!(!Mpv::has_duplicates(&apart));
    assert!(hub.observe_events(&apart).is_ok());
    assert_eq!(hub.interest_count(), 2);
}

#[test]
fn two_subscriptions_may_share_a_template() {
    let mut hub = Mpv::new(1, 1).unwrap();
    assert!(hub.observe_events(&[Event::Idle]).is_ok());
    let (second, requests) = hub.observe_events(&[Event::Idle]).unwrap();
    assert_eq!(requests, vec![]);
    assert_eq!(second.id(), 1);
}

#[test]
fn a_pull_never_hands_out_an_empty_batch() {
    let signal = WakeSignal::new();
    let mut hub = Mpv::new(1, 1).unwrap();
    let (mut iter, _) = hub.observe_events(&[Event::Idle]).unwrap();
    assert_eq!(iter.next(&mut hub), Pull::Drain);
    let (batch, taken) = pass_over(&mut iter, &mut hub, &signal, &[plain(6), plain(0), plain(0)]);
    assert_eq!(taken, 3);
    assert_eq!(batch, None);
    // Nothing is owed: wait first, then poll again.
    assert_eq!(iter.next(&mut hub), Pull::Wait);
    assert_eq!(iter.next(&mut hub), Pull::Drain);
    let (batch, _) = pass_over(&mut iter, &mut hub, &signal, &[plain(11), plain(0), plain(0)]);
    assert_eq!(batch, Some(vec![Event::Idle]));
    assert_eq!(iter.next(&mut hub), Pull::Wait);
}

#[test]
fn two_sentinels_in_a_row_end_a_pass() {
    let signal = WakeSignal::new();
    let mut hub = Mpv::new(1, 1).unwrap();
    let (mut iter, _) = hub.observe_events(&[Event::Idle]).unwrap();
    let answers = vec![plain(0), plain(0), plain(11)];
    let (batch, taken) = pass_over(&mut iter, &mut hub, &signal, &answers);
    assert_eq!(taken, 2);
    assert_eq!(batch, None);
}

#[test]
fn one_sentinel_before_an_event_does_not_end_a_pass() {
    let signal = WakeSignal::new();
    let mut hub = Mpv::new(1, 1).unwrap();
    let (mut iter, _) = hub.observe_events(&[Event::Idle]).unwrap();
    let answers = vec![plain(0), plain(11), plain(0), plain(11), plain(0), plain(0), plain(11)];
    let (batch, taken) = pass_over(&mut iter, &mut hub, &signal, &answers);
    assert_eq!(taken, 6);
    assert_eq!(batch, Some(vec![Event::Idle, Event::Idle]));
}

#[test]
fn an_overflow_halts_the_pass_without_an_error() {
    let signal = WakeSignal::new();
    let mut hub = Mpv::new(1, 1).unwrap();
    let (mut iter, _) = hub.observe_events(&[Event::Idle]).unwrap();
    let answers = vec![plain(11), plain(24), plain(11), plain(0), plain(0)];
    let (batch, taken) = pass_over(&mut iter, &mut hub, &signal, &answers);
    assert_eq!(taken, 2);
    assert_eq!(batch, Some(vec![Event::Idle]));
}

#[test]
fn a_pass_steps_through_its_phases() {
    let mut hub = Mpv::new(1, 1).unwrap();
    let (iter, _) = hub.observe_events(&[Event::Idle]).unwrap();
    let mut pass = DrainPass::new();
    assert!(!pass.is_over());
    iter.drain_step(&mut hub, &mut pass, &plain(0));
    assert!(!pass.is_over());
    iter.drain_step(&mut hub, &mut pass, &plain(1));
    assert!(!pass.is_over());
    iter.drain_step(&mut hub, &mut pass, &plain(0));
    assert!(!pass.is_over());
    iter.drain_step(&mut hub, &mut pass, &plain(0));
    assert!(pass.is_over());
    assert!(!pass.has_deposited());
    // A pass that is over takes nothing in.
    iter.drain_step(&mut hub, &mut pass, &plain(11));
    let mut iter = iter;
    assert_eq!(
        iter.finish_drain(pass, &WakeSignal::new()),
        Drained { batch: None, woken: None }
    );
}

#[test]
fn a_pass_that_runs_out_of_answers_is_not_over() {
    let mut hub = Mpv::new(1, 1).unwrap();
    let (iter, _) = hub.observe_events(&[Event::Idle]).unwrap();
    let mut pass = DrainPass::new();
    assert_eq!(iter.drain_all(&mut hub, &mut pass, &[plain(11), plain(0)]), 2);
    assert!(!pass.is_over());
    assert_eq!(iter.drain_all(&mut hub, &mut pass, &[plain(0), plain(11)]), 1);
    assert!(pass.is_over());
}

#[test]
fn a_deposit_is_recorded_in_the_pass() {
    let mut hub = Mpv::new(1, 1).unwrap();
    let (poller, _) = hub.observe_events(&[Event::Idle]).unwrap();
    let (_other, _) = hub.observe_events(&[Event::Tick]).unwrap();
    let mut pass = DrainPass::new();
    poller.drain_step(&mut hub, &mut pass, &plain(11));
    assert!(!pass.has_deposited());
    poller.drain_step(&mut hub, &mut pass, &plain(14));
    assert!(pass.has_deposited());
    assert_eq!(hub.shared_count(), 1);
}

#[test]
fn the_others_are_woken_exactly_when_something_was_queued() {
    let signal = WakeSignal::new();
    let mut hub = Mpv::new(1, 1).unwrap();
    let (mut poller, _) = hub.observe_events(&[Event::Idle]).unwrap();
    let (_other, _) = hub.observe_events(&[Event::Tick]).unwrap();
    let mut pass = DrainPass::new();
    poller.drain_all(&mut hub, &mut pass, &[plain(11), plain(0), plain(0)]);
    assert_eq!(
        poller.finish_drain(pass, &signal),
        Drained { batch: Some(vec![Event::Idle]), woken: None }
    );
    let mut pass = DrainPass::new();
    poller.drain_all(&mut hub, &mut pass, &[plain(14), plain(0), plain(0)]);
    // Nobody waits on the signal, so nobody is woken, but the call is made.
    assert_eq!(poller.finish_drain(pass, &signal), Drained { batch: None, woken: Some(0) });
}

#[test]
fn an_unwanted_answer_is_dropped_unread() {
    let signal = WakeSignal::new();
    let mut hub = Mpv::new(1, 1).unwrap();
    let (mut iter, _) = hub.observe_events(&[Event::Idle]).unwrap();
    // Nobody wants property changes, log messages or end-of-file events,
    // so it does not matter that these cannot be read.
    let answers = vec![
        plain(22),
        plain(2),
        RawEvent { event_id: 7, error: -5, data: RawData::EndFile { reason: 9, error: 0 } },
        plain(11),
        plain(0),
        plain(0),
    ];
    assert!(!answers[0].is_decodable());
    assert!(!hub.awaits(&answers[0]));
    assert!(!hub.awaits(&answers[1]));
    assert!(!hub.awaits(&answers[2]));
    assert!(hub.awaits(&answers[3]));
    assert!(!hub.awaits(&answers[4]));
    let (batch, taken) = pass_over(&mut iter, &mut hub, &signal, &answers);
    assert_eq!(taken, 6);
    assert_eq!(batch, Some(vec![Event::Idle]));
    assert_eq!(hub.shared_count(), 0);
}

#[test]
fn a_property_change_is_awaited_by_its_name() {
    let mut hub = Mpv::new(1, 1).unwrap();
    let (_iter, _) =
        hub.observe_events(&[Event::empty_propertychange("pause".to_string())]).unwrap();
    assert!(hub.awaits(&flag_change("pause", 1)));
    assert!(!hub.awaits(&flag_change("volume", 1)));
    // A property change that names no property is matched by nothing.
    assert!(!hub.awaits(&plain(22)));
    assert!(!hub.awaits(&plain(11)));
    assert!(!hub.awaits(&plain(24)));
}

#[test]
fn string_properties_arrive_as_text() {
    let signal = WakeSignal::new();
    let mut hub = Mpv::new(1, 1).unwrap();
    let templates = [
        Event::PropertyChange {
            name: "media-title".to_string(),
            data: PropertyData::String(String::new()),
        },
        Event::PropertyChange {
            name: "time-pos".to_string(),
            data: PropertyData::OsdString(String::new()),
        },
    ];
    let (mut iter, requests) = hub.observe_events(&templates).unwrap();
    assert_eq!(
        requests,
        vec![
            EngineRequest::RequestEvent { id: 22, enable: true },
            EngineRequest::ObserveProperty {
                id: 0,
                name: "media-title".to_string(),
                format: Format::String,
            },
            EngineRequest::ObserveProperty {
                id: 1,
                name: "time-pos".to_string(),
                format: Format::OsdString,
            },
        ]
    );
    let text = |name: &str, format, value: &str| RawEvent {
        event_id: 22,
        error: 0,
        data: RawData::Property {
            name: name.to_string(),
            format,
            value: Some(RawValue::Text(value.to_string())),
        },
    };
    let answers =
        vec![text("media-title", 1, "Big Buck Bunny"), text("time-pos", 2, "00:01:02"), plain(24)];
    let (batch, taken) = pass_over(&mut iter, &mut hub, &signal, &answers);
    assert_eq!(taken, 3);
    assert_eq!(
        batch,
        Some(vec![
            Event::PropertyChange {
                name: "media-title".to_string(),
                data: PropertyData::String("Big Buck Bunny".to_string()),
            },
            Event::PropertyChange {
                name: "time-pos".to_string(),
                data: PropertyData::OsdString("00:01:02".to_string()),
            },
        ])
    );
}

#[test]
fn a_signal_without_waiters_wakes_nobody() {
    let signal = WakeSignal::new();
    assert_eq!(signal.notify_all(), 0);
    assert!(!signal.condvar().notify_one());
}
