use mpv_events::{
    silencing_requests, DrainPass, EngineRequest, Error, Event, Format, LogLevel, Mpv,
    PropertyData, Pull, RawData, RawEvent, Stage, WakeSignal,
};

fn plain(event_id: u32) -> RawEvent {
    RawEvent { event_id, error: 0, data: RawData::Absent }
}

fn switch(id: u32, enable: bool) -> EngineRequest {
    EngineRequest::RequestEvent { id, enable }
}

/// An engine that only records which kinds are switched on, whether log
/// messages are asked for, and which observations run.
struct RecordingEngine {
    enabled: Vec<u32>,
    log_level: Option<LogLevel>,
    observations: Vec<(u64, String, Format)>,
    calls: usize,
}

fn recording_engine() -> RecordingEngine {
    RecordingEngine { enabled: Vec::new(), log_level: None, observations: Vec::new(), calls: 0 }
}

fn put(engine: &mut RecordingEngine, requests: &[EngineRequest]) {
    for request in requests {
        engine.calls += 1;
        match request {
            EngineRequest::RequestEvent { id, enable } => {
                engine.enabled.retain(|e| e != id);
                if *enable {
                    engine.enabled.push(*id);
                }
            }
            EngineRequest::RequestLogMessages { min_level } => {
                engine.log_level = Some(*min_level);
            }
            EngineRequest::ObserveProperty { id, name, format } => {
                assert!(engine.observations.iter().all(|o| o.0 != *id));
                engine.observations.push((*id, name.clone(), *format));
            }
            EngineRequest::UnobserveProperty { id } => {
                engine.observations.retain(|o| o.0 != *id);
            }
        }
    }
}

#[test]
fn a_version_mismatch_is_reported_with_both_versions() {
    assert_eq!(
        Mpv::new(0x1_0019, 0x1_0014).err(),
        Some(Error::VersionMismatch { linked: 0x1_0019, loaded: 0x1_0014 })
    );
    let hub = Mpv::new(7, 7).unwrap();
    assert_eq!(hub.interest_count(), 0);
    assert_eq!(hub.shared_count(), 0);
}

#[test]
fn a_status_is_an_error_unless_it_is_zero() {
    assert_eq!(Error::from_status(0), Ok(()));
    assert_eq!(Error::from_status(-4), Err(Error::EngineRejected(-4)));
    assert_eq!(Error::from_status(1), Err(Error::EngineRejected(1)));
}

#[test]
fn start_up_silences_every_switchable_event() {
    let requests = silencing_requests();
    assert_eq!(requests.len(), 22);
    assert_eq!(requests[0], switch(2, false));
    assert_eq!(requests[21], switch(23, false));
    for (i, request) in requests.iter().enumerate() {
        assert_eq!(*request, switch(i as u32 + 2, false));
    }
}

#[test]
fn the_last_holder_of_a_kind_switches_it_off() {
    let mut engine = recording_engine();
    let mut hub = Mpv::new(1, 1).unwrap();
    let (mut first, requests) = hub.observe_events(&[Event::Idle, Event::Seek]).unwrap();
    put(&mut engine, &requests);
    let (mut second, requests) = hub.observe_events(&[Event::Idle]).unwrap();
    put(&mut engine, &requests);
    assert_eq!(engine.enabled, vec![11, 20]);
    assert!(hub.holds_kind(mpv_events::EventKind::Idle));

    // Another subscription still wants idle events: only seek goes off.
    let requests = first.dispose(&mut hub);
    assert_eq!(requests, vec![switch(20, false)]);
    put(&mut engine, &requests);
    assert_eq!(engine.enabled, vec![11]);
    assert_eq!(hub.interest_count(), 1);

    let requests = second.dispose(&mut hub);
    assert_eq!(requests, vec![switch(11, false)]);
    put(&mut engine, &requests);
    assert_eq!(engine.enabled, Vec::<u32>::new());
    assert_eq!(hub.interest_count(), 0);
    assert!(!hub.holds_kind(mpv_events::EventKind::Idle));
}

#[test]
fn a_kind_is_switched_on_once_and_off_once() {
    let mut engine = recording_engine();
    let mut hub = Mpv::new(1, 1).unwrap();
    let (mut a, requests) = hub.observe_events(&[Event::Tick]).unwrap();
    put(&mut engine, &requests);
    let (mut b, requests) = hub.observe_events(&[Event::Tick]).unwrap();
    put(&mut engine, &requests);
    let (mut c, requests) = hub.observe_events(&[Event::Tick]).unwrap();
    put(&mut engine, &requests);
    assert_eq!(engine.calls, 1);
    put(&mut engine, &b.dispose(&mut hub));
    put(&mut engine, &a.dispose(&mut hub));
    assert_eq!(engine.calls, 1);
    assert_eq!(engine.enabled, vec![14]);
    put(&mut engine, &c.dispose(&mut hub));
    assert_eq!(engine.calls, 2);
    assert_eq!(engine.enabled, Vec::<u32>::new());
}

#[test]
fn log_messages_are_asked_for_before_their_kind_is_switched_on() {
    let mut engine = recording_engine();
    let mut hub = Mpv::new(1, 1).unwrap();
    let (mut iter, requests) =
        hub.observe_events(&[Event::empty_logmessage(LogLevel::Warn)]).unwrap();
    assert_eq!(
        requests,
        vec![EngineRequest::RequestLogMessages { min_level: LogLevel::Warn }, switch(2, true)]
    );
    put(&mut engine, &requests);
    assert_eq!(engine.log_level, Some(LogLevel::Warn));
    let requests = iter.dispose(&mut hub);
    assert_eq!(
        requests,
        vec![EngineRequest::RequestLogMessages { min_level: LogLevel::Off }, switch(2, false)]
    );
    put(&mut engine, &requests);
    assert_eq!(engine.log_level, Some(LogLevel::Off));
    assert_eq!(engine.enabled, Vec::<u32>::new());
}

#[test]
fn a_property_is_observed_once_and_keeps_its_number() {
    let mut engine = recording_engine();
    let mut hub = Mpv::new(1, 1).unwrap();
    let templates = [
        Event::Idle,
        Event::PropertyChange { name: "volume".to_string(), data: PropertyData::Double(0) },
        Event::PropertyChange { name: "pause".to_string(), data: PropertyData::Flag(false) },
    ];
    let (mut first, requests) = hub.observe_events(&templates).unwrap();
    assert_eq!(
        requests,
        vec![
            switch(11, true),
            switch(22, true),
            EngineRequest::ObserveProperty {
                id: 1,
                name: "volume".to_string(),
                format: Format::Double,
            },
            EngineRequest::ObserveProperty { id: 2, name: "pause".to_string(), format: Format::Flag },
        ]
    );
    put(&mut engine, &requests);
    assert_eq!(hub.observation(&"volume".to_string()), Some(1));
    assert_eq!(hub.observation(&"pause".to_string()), Some(2));
    assert_eq!(hub.observation(&"mute".to_string()), None);

    let more = [
        Event::PropertyChange { name: "pause".to_string(), data: PropertyData::Flag(false) },
        Event::PropertyChange {
            name: "media-title".to_string(),
            data: PropertyData::String(String::new()),
        },
    ];
    let (mut second, requests) = hub.observe_events(&more).unwrap();
    assert_eq!(
        requests,
        vec![EngineRequest::ObserveProperty {
            id: 4,
            name: "media-title".to_string(),
            format: Format::String,
        }]
    );
    put(&mut engine, &requests);
    assert_eq!(hub.observation(&"pause".to_string()), Some(2));

    // The first subscription ends: volume is no longer observed, pause is.
    let requests = first.dispose(&mut hub);
    assert_eq!(
        requests,
        vec![switch(11, false), EngineRequest::UnobserveProperty { id: 1 }]
    );
    put(&mut engine, &requests);
    assert_eq!(hub.observation(&"volume".to_string()), None);
    assert_eq!(hub.observation(&"pause".to_string()), Some(2));

    let requests = second.dispose(&mut hub);
    assert_eq!(
        requests,
        vec![
            EngineRequest::UnobserveProperty { id: 2 },
            EngineRequest::UnobserveProperty { id: 4 },
            switch(22, false),
        ]
    );
    put(&mut engine, &requests);
    assert!(engine.observations.is_empty());
    assert!(engine.enabled.is_empty());

    // Numbers are not handed out again.
    let (_, requests) =
        hub.observe_events(&[Event::empty_propertychange("volume".to_string())]).unwrap();
    assert_eq!(
        requests,
        vec![
            switch(22, true),
            EngineRequest::ObserveProperty { id: 5, name: "volume".to_string(), format: Format::Flag },
        ]
    );
}

#[test]
fn disposing_strikes_claims_and_clears_unclaimed_events() {
    let signal = WakeSignal::new();
    let mut hub = Mpv::new(1, 1).unwrap();
    let (mut poller, _) = hub.observe_events(&[Event::Idle]).unwrap();
    let (mut sleepy, _) = hub.observe_events(&[Event::Idle, Event::Tick]).unwrap();
    let (mut third, _) = hub.observe_events(&[Event::Tick]).unwrap();
    let mut pass = DrainPass::new();
    let answers = [plain(11), plain(14), plain(0), plain(0)];
    assert_eq!(poller.drain_all(&mut hub, &mut pass, &answers), 4);
    assert_eq!(poller.finish_drain(pass, &signal).batch, Some(vec![Event::Idle]));
    assert_eq!(hub.shared_count(), 2);

    // The idle event was owed to the sleepy subscriber alone; the tick is
    // still owed to the third.
    let _ = sleepy.dispose(&mut hub);
    assert_eq!(hub.shared_count(), 1);
    assert_eq!(third.next(&mut hub), Pull::Drain);
    let pass = DrainPass::new();
    assert_eq!(third.finish_drain(pass, &signal).batch, None);
    assert_eq!(third.next(&mut hub), Pull::Ready(vec![Event::Tick]));
    assert_eq!(hub.shared_count(), 0);
}

#[test]
fn disposing_twice_does_nothing_the_second_time() {
    let mut hub = Mpv::new(1, 1).unwrap();
    let (mut iter, _) = hub.observe_events(&[Event::Idle]).unwrap();
    let (_other, _) = hub.observe_events(&[Event::Seek]).unwrap();
    assert_eq!(iter.dispose(&mut hub), vec![switch(11, false)]);
    assert_eq!(iter.stage(), Stage::Disposed);
    assert_eq!(iter.dispose(&mut hub), vec![]);
    assert_eq!(hub.interest_count(), 1);
    assert_eq!(iter.next(&mut hub), Pull::Finished);
    assert_eq!(iter.finish_drain(DrainPass::new(), &WakeSignal::new()).batch, None);
    assert_eq!(iter.stage(), Stage::Disposed);
}

#[test]
fn a_rejected_subscription_is_ended_and_rolled_back() {
    let mut engine = recording_engine();
    let mut hub = Mpv::new(1, 1).unwrap();
    let (_standing, requests) = hub.observe_events(&[Event::Seek]).unwrap();
    put(&mut engine, &requests);
    let (iter, requests) = hub
        .observe_events(&[
            Event::Idle,
            Event::Seek,
            Event::empty_propertychange("pause".to_string()),
        ])
        .unwrap();
    assert_eq!(
        requests,
        vec![
            switch(11, true),
            switch(22, true),
            EngineRequest::ObserveProperty { id: 3, name: "pause".to_string(), format: Format::Flag },
        ]
    );
    // The engine takes the first two requests and rejects the third.
    put(&mut engine, &requests[..2]);
    let (error, undo) = iter.settle(&mut hub, -8).unwrap_err();
    assert_eq!(error, Error::EngineRejected(-8));
    assert_eq!(
        undo,
        vec![switch(11, false), EngineRequest::UnobserveProperty { id: 3 }, switch(22, false)]
    );
    put(&mut engine, &undo);
    assert_eq!(engine.enabled, vec![20]);
    assert!(engine.observations.is_empty());
    assert_eq!(hub.interest_count(), 1);
}

#[test]
fn an_accepted_subscription_stands() {
    let mut hub = Mpv::new(1, 1).unwrap();
    let (iter, _) = hub.observe_events(&[Event::Idle]).unwrap();
    let id = iter.id();
    let mut iter = iter.settle(&mut hub, 0).unwrap();
    assert_eq!(iter.id(), id);
    assert_eq!(iter.stage(), Stage::Fresh);
    assert_eq!(hub.interest_count(), 1);
    assert_eq!(iter.next(&mut hub), Pull::Drain);
}

#[test]
fn who_wants_what() {
    let mut hub = Mpv::new(1, 1).unwrap();
    let (first, _) = hub
        .observe_events(&[Event::Idle, Event::empty_propertychange("pause".to_string())])
        .unwrap();
    let (second, _) = hub
        .observe_events(&[Event::empty_propertychange("pause".to_string()), Event::Tick])
        .unwrap();
    let (third, _) = hub.observe_events(&[Event::empty_propertychange("pause".to_string())]).unwrap();
    let pause = Event::PropertyChange { name: "pause".to_string(), data: PropertyData::Int64(1) };
    let volume = Event::PropertyChange { name: "volume".to_string(), data: PropertyData::Int64(1) };
    assert!(hub.wants(first.id(), &pause));
    assert!(!hub.wants(first.id(), &volume));
    assert!(!hub.wants(first.id(), &Event::Tick));
    assert!(hub.wants(second.id(), &Event::Tick));
    assert_eq!(hub.claimants(first.id(), &pause), vec![second.id(), third.id()]);
    assert_eq!(hub.claimants(second.id(), &pause), vec![first.id(), third.id()]);
    assert_eq!(hub.claimants(second.id(), &Event::Tick), Vec::<u64>::new());
    assert_eq!(hub.claimants(7, &Event::Idle), vec![first.id()]);
    assert!(hub.has_room(3));
}
