use engine_launcher::engine::{
    head, Action, CanonicalHeader, ChainEvent, EngineError, EngineLoop, Event, Head, SyncState,
};

type E = Event<u32, &'static str>;

fn header(total_difficulty: Option<[u8; 32]>) -> CanonicalHeader {
    CanonicalHeader {
        number: 9,
        hash: [2; 32],
        difficulty: [3; 32],
        timestamp: 77,
        final_paris_total_difficulty: total_difficulty,
    }
}

fn expected_head(total_difficulty: [u8; 32]) -> Head {
    Head { number: 9, hash: [2; 32], difficulty: [3; 32], timestamp: 77, total_difficulty }
}

fn started() -> EngineLoop {
    EngineLoop::start::<u32, &'static str>(None).0
}

#[test]
fn starting_catches_up_with_the_target() {
    let (engine, actions) = EngineLoop::start::<u32, &'static str>(Some([8; 32]));
    assert_eq!(actions, vec![Action::StartBackfillSync([8; 32])]);
    assert!(engine.is_running());
    assert_eq!(engine.exit_result(), None);
    let (engine, actions) = EngineLoop::start::<u32, &'static str>(None);
    assert!(actions.is_empty());
    assert!(engine.is_running());
}

#[test]
fn payloads_are_inserted_with_their_executed_block() {
    let mut engine = started();
    let event: E = Event::Payload(Some(5));
    assert_eq!(engine.on_event(event), vec![Action::InsertExecutedBlock(5)]);
    let event: E = Event::Payload(None);
    assert_eq!(engine.on_event(event), vec![]);
    assert!(engine.is_running());
}

#[test]
fn backfill_sets_the_sync_state() {
    let mut engine = started();
    let event: E = Event::Service(Some(ChainEvent::BackfillSyncStarted));
    assert_eq!(engine.on_event(event), vec![Action::UpdateSyncState(SyncState::Syncing)]);
    let event: E = Event::Service(Some(ChainEvent::BackfillSyncFinished));
    assert_eq!(engine.on_event(event), vec![Action::UpdateSyncState(SyncState::Idle)]);
    assert!(engine.is_running());
}

#[test]
fn the_head_is_told_before_the_listeners() {
    let mut engine = started();
    let event: E = Event::Service(Some(ChainEvent::Handler {
        event: "canonical",
        canonical: Some(header(Some([4; 32]))),
    }));
    assert_eq!(
        engine.on_event(event),
        vec![Action::UpdateStatus(expected_head([4; 32])), Action::Notify("canonical")]
    );
    let event: E =
        Event::Service(Some(ChainEvent::Handler { event: "fork", canonical: None }));
    assert_eq!(engine.on_event(event), vec![Action::Notify("fork")]);
    assert!(engine.is_running());
}

#[test]
fn an_unknown_total_difficulty_is_zero() {
    assert_eq!(head(&header(None)), expected_head([0; 32]));
    assert_eq!(head(&header(Some([4; 32]))), expected_head([4; 32]));
}

#[test]
fn the_end_of_the_service_ends_the_loop() {
    let mut engine = started();
    let event: E = Event::Service(None);
    assert_eq!(engine.on_event(event), vec![]);
    assert!(!engine.is_running());
    assert_eq!(engine.exit_result(), Some(Ok(())));
}

#[test]
fn a_fatal_error_fails_the_node() {
    let mut engine = started();
    let event: E = Event::Service(Some(ChainEvent::FatalError));
    assert_eq!(engine.on_event(event), vec![]);
    assert!(!engine.is_running());
    assert_eq!(engine.exit_result(), Some(Err(EngineError::Fatal)));
    assert_eq!(EngineError::Fatal.message(), "Fatal error in consensus engine");
}

#[test]
fn a_run_tells_and_inserts_in_order_until_it_stops() {
    let events: Vec<E> = vec![
        Event::Service(Some(ChainEvent::BackfillSyncStarted)),
        Event::Payload(Some(1)),
        Event::Service(Some(ChainEvent::Handler { event: "a", canonical: None })),
        Event::Service(Some(ChainEvent::BackfillSyncFinished)),
        Event::Payload(Some(2)),
        Event::Service(Some(ChainEvent::Handler {
            event: "b",
            canonical: Some(header(None)),
        })),
        Event::Service(Some(ChainEvent::FatalError)),
        Event::Payload(Some(3)),
    ];
    let mut engine = started();
    let mut actions = Vec::new();
    for event in events {
        if !engine.is_running() {
            break;
        }
        actions.extend(engine.on_event(event));
    }
    assert_eq!(
        actions,
        vec![
            Action::UpdateSyncState(SyncState::Syncing),
            Action::InsertExecutedBlock(1),
            Action::Notify("a"),
            Action::UpdateSyncState(SyncState::Idle),
            Action::InsertExecutedBlock(2),
            Action::UpdateStatus(expected_head([0; 32])),
            Action::Notify("b"),
        ]
    );
    assert_eq!(engine.exit_result(), Some(Err(EngineError::Fatal)));
}
