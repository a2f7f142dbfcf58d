//! The loop that runs the consensus engine.
//!
//! The program waits for the next event, be it a payload that was built
//! locally or an event of the engine service, hands it to an [`EngineLoop`]
//! and performs the actions that come back, until the loop has stopped.
#[allow(unused_imports)]
use crate::primitives::{lemma_zero_bytes, zero, zeros};
use crate::primitives::{B256, U256};
use vstd::prelude::*;

verus! {

/// Whether the node is catching up with the chain.
#[derive(Debug, PartialEq, Eq, Clone, Copy)]
pub enum SyncState {
    Idle,
    Syncing,
}

/// What an event tells of the header that became canonical.
#[derive(Debug, PartialEq, Eq, Clone, Copy)]
pub struct CanonicalHeader {
    pub number: u64,
    pub hash: B256,
    pub difficulty: U256,
    pub timestamp: u64,
    /// The total difficulty at which the chain left proof of work, where the
    /// header's number is past that point.
    pub final_paris_total_difficulty: Option<U256>,
}

/// The head of the chain, as it is told to the network.
#[derive(Debug, PartialEq, Eq, Clone, Copy)]
pub struct Head {
    pub number: u64,
    pub hash: B256,
    pub difficulty: U256,
    pub timestamp: u64,
    pub total_difficulty: U256,
}

/// An event of the engine service. `E` is an event of the request handler.
#[derive(Debug, PartialEq, Eq)]
pub enum ChainEvent<E> {
    BackfillSyncFinished,
    BackfillSyncStarted,
    FatalError,
    Handler { event: E, canonical: Option<CanonicalHeader> },
}

/// What the loop waits for. `P` is a block that was executed when its payload
/// was built.
#[derive(Debug, PartialEq, Eq)]
pub enum Event<P, E> {
    /// A payload was built, with or without its executed block.
    Payload(Option<P>),
    /// The engine service has an event, or has come to its end.
    Service(Option<ChainEvent<E>>),
}

/// What the program is to do.
#[derive(Debug, PartialEq, Eq)]
pub enum Action<P, E> {
    /// Start to catch up with the block of this hash.
    StartBackfillSync(B256),
    /// Give the block to the engine, which then need not execute it again.
    InsertExecutedBlock(P),
    /// Tell the network whether the node is catching up.
    UpdateSyncState(SyncState),
    /// Tell the network the head of the chain.
    UpdateStatus(Head),
    /// Tell the listeners of the engine.
    Notify(E),
}

/// Where the loop stands.
#[derive(Debug, PartialEq, Eq, Clone, Copy, Structural)]
pub enum EngineStatus {
    Running,
    /// The engine service came to its end.
    Finished,
    /// The engine service failed.
    Failed,
}

/// Why the engine stopped.
#[derive(Debug, PartialEq, Eq, Clone, Copy)]
pub enum EngineError {
    Fatal,
}

impl EngineError {
    /// What there is to tell the user.
    pub fn message(&self) -> (message: String)
        ensures
            message@ == "Fatal error in consensus engine"@,
    {
        "Fatal error in consensus engine".to_owned()
    }
}

/// The head that a canonical header makes. Its total difficulty is zero where
/// the chain is not known to have left proof of work.
pub open spec fn head_spec(header: CanonicalHeader) -> Head {
    Head {
        number: header.number,
        hash: header.hash,
        difficulty: header.difficulty,
        timestamp: header.timestamp,
        total_difficulty: match header.final_paris_total_difficulty {
            Some(difficulty) => difficulty,
            None => zero(),
        },
    }
}

/// The head that a canonical header makes.
pub fn head(header: &CanonicalHeader) -> (head: Head)
    ensures
        head == head_spec(*header),
        head.number == header.number,
        head.hash@ == header.hash@,
        head.difficulty@ == header.difficulty@,
        head.timestamp == header.timestamp,
        header.final_paris_total_difficulty matches Some(total) ==> head.total_difficulty@ == total@,
        header.final_paris_total_difficulty is None ==> head.total_difficulty@ == zeros(32),
{
    proof {
        lemma_zero_bytes();
    }
    Head {
        number: header.number,
        hash: header.hash,
        difficulty: header.difficulty,
        timestamp: header.timestamp,
        total_difficulty: match header.final_paris_total_difficulty {
            Some(difficulty) => difficulty,
            None => [0u8; 32],
        },
    }
}

/// Where a running loop stands after an event.
pub open spec fn status_after<P, E>(event: Event<P, E>) -> EngineStatus {
    match event {
        Event::Service(None) => EngineStatus::Finished,
        Event::Service(Some(ChainEvent::FatalError)) => EngineStatus::Failed,
        _ => EngineStatus::Running,
    }
}

/// What a running loop asks for on an event.
pub open spec fn actions_for<P, E>(event: Event<P, E>) -> Seq<Action<P, E>> {
    match event {
        Event::Payload(Some(block)) => seq![Action::InsertExecutedBlock(block)],
        Event::Payload(None) => seq![],
        Event::Service(None) => seq![],
        Event::Service(Some(ChainEvent::FatalError)) => seq![],
        Event::Service(Some(ChainEvent::BackfillSyncFinished)) => seq![
            Action::UpdateSyncState(SyncState::Idle),
        ],
        Event::Service(Some(ChainEvent::BackfillSyncStarted)) => seq![
            Action::UpdateSyncState(SyncState::Syncing),
        ],
        Event::Service(Some(ChainEvent::Handler { event, canonical })) => match canonical {
            Some(header) => seq![Action::UpdateStatus(head_spec(header)), Action::Notify(event)],
            None => seq![Action::Notify(event)],
        },
    }
}

/// A running loop stops on the end of the service and on a fatal error, with
/// the status of each, and on nothing else: a payload, a start or an end of
/// catching up, and a handler event, whatever header it carries, leave it
/// running.
pub proof fn law_only_the_end_and_a_fatal_error_stop<P, E>(event: Event<P, E>)
    ensures
        event is Payload ==> status_after(event) == EngineStatus::Running,
        event matches Event::Service(None) ==> status_after(event) == EngineStatus::Finished,
        event matches Event::Service(Some(ChainEvent::FatalError)) ==> status_after(event)
            == EngineStatus::Failed,
        event matches Event::Service(Some(ChainEvent::BackfillSyncStarted)) ==> status_after(event)
            == EngineStatus::Running,
        event matches Event::Service(Some(ChainEvent::BackfillSyncFinished)) ==> status_after(event)
            == EngineStatus::Running,
        event matches Event::Service(Some(ChainEvent::Handler { .. })) ==> status_after(event)
            == EngineStatus::Running,
{
}

/// What each kind of event asks for, whatever it carries: an executed block is
/// inserted, a start or an end of catching up is told to the network, a
/// handler event is told to the listeners, after the head where a header
/// became canonical; and nothing else is asked for.
pub proof fn law_each_event_has_its_actions<P, E>(event: Event<P, E>)
    ensures
        event matches Event::Payload(Some(block)) ==> actions_for(event).len() == 1
            && actions_for(event)[0] == Action::<P, E>::InsertExecutedBlock(block),
        event matches Event::Payload(None) ==> actions_for(event).len() == 0,
        event matches Event::Service(None) ==> actions_for(event).len() == 0,
        event matches Event::Service(Some(ChainEvent::FatalError)) ==> actions_for(event).len()
            == 0,
        event matches Event::Service(Some(ChainEvent::BackfillSyncFinished)) ==> actions_for(
            event,
        ).len() == 1 && actions_for(event)[0] == Action::<P, E>::UpdateSyncState(SyncState::Idle),
        event matches Event::Service(Some(ChainEvent::BackfillSyncStarted)) ==> actions_for(
            event,
        ).len() == 1 && actions_for(event)[0] == Action::<P, E>::UpdateSyncState(
            SyncState::Syncing,
        ),
        event matches Event::Service(Some(ChainEvent::Handler { event: told, canonical }))
            ==> actions_for(event).len() > 0 && actions_for(event).last() == Action::<
            P,
            E,
        >::Notify(told) && (canonical is None ==> actions_for(event).len() == 1) && (
        canonical matches Some(header) ==> actions_for(event).len() == 2 && (actions_for(
            event,
        )[0] matches Action::UpdateStatus(head) && head.number == header.number && head.hash@
            == header.hash@ && head.difficulty@ == header.difficulty@ && head.timestamp
            == header.timestamp && head == head_spec(header))),
{
}

/// A head is its header field by field. Its total difficulty is the one at
/// which the chain left proof of work, or zero where that is not known.
pub proof fn law_head_is_its_header(header: CanonicalHeader)
    ensures
        head_spec(header).number == header.number,
        head_spec(header).hash@ == header.hash@,
        head_spec(header).difficulty@ == header.difficulty@,
        head_spec(header).timestamp == header.timestamp,
        header.final_paris_total_difficulty matches Some(total) ==> head_spec(
            header,
        ).total_difficulty@ == total@,
        header.final_paris_total_difficulty is None ==> forall|i: int|
            0 <= i < 32 ==> #[trigger] head_spec(header).total_difficulty@[i] == 0,
{
    lemma_zero_bytes();
}

/// The loop that runs the consensus engine.
#[derive(Debug)]
pub struct EngineLoop {
    status: EngineStatus,
}

impl EngineLoop {
    /// Where the loop stands.
    pub closed spec fn status(self) -> EngineStatus {
        self.status
    }

    /// Starts the loop. Catching up begins where there is a block to catch up
    /// with.
    pub fn start<P, E>(initial_target: Option<B256>) -> (started: (Self, Vec<Action<P, E>>))
        ensures
            started.0.status() == EngineStatus::Running,
            started.1@ == (match initial_target {
                Some(target) => seq![Action::<P, E>::StartBackfillSync(target)],
                None => seq![],
            }),
    {
        let mut actions: Vec<Action<P, E>> = Vec::new();
        if let Some(target) = initial_target {
            actions.push(Action::StartBackfillSync(target));
        }
        (EngineLoop { status: EngineStatus::Running }, actions)
    }

    /// Whether the loop waits for another event.
    pub fn is_running(&self) -> (running: bool)
        ensures
            running == (self.status() == EngineStatus::Running),
    {
        matches!(self.status, EngineStatus::Running)
    }

    /// Takes an event, and returns what to do on it, in order.
    pub fn on_event<P, E>(&mut self, event: Event<P, E>) -> (actions: Vec<Action<P, E>>)
        requires
            old(self).status() == EngineStatus::Running,
        ensures
            final(self).status() == status_after(event),
            actions@ == actions_for(event),
            (event matches Event::Service(None)) <==> final(self).status()
                == EngineStatus::Finished,
            (event matches Event::Service(Some(ChainEvent::FatalError))) <==> final(self).status()
                == EngineStatus::Failed,
            event matches Event::Payload(Some(block)) ==> actions@ == seq![
                Action::<P, E>::InsertExecutedBlock(block),
            ],
            event matches Event::Payload(None) ==> actions@.len() == 0,
            event matches Event::Service(None) ==> actions@.len() == 0,
            event matches Event::Service(Some(ChainEvent::FatalError)) ==> actions@.len() == 0,
            event matches Event::Service(Some(ChainEvent::BackfillSyncFinished)) ==> actions@
                == seq![Action::<P, E>::UpdateSyncState(SyncState::Idle)],
            event matches Event::Service(Some(ChainEvent::BackfillSyncStarted)) ==> actions@
                == seq![Action::<P, E>::UpdateSyncState(SyncState::Syncing)],
            event matches Event::Service(Some(ChainEvent::Handler { event: told, canonical: None }))
                ==> actions@ == seq![Action::<P, E>::Notify(told)],
            event matches Event::Service(
                Some(ChainEvent::Handler { event: told, canonical: Some(header) }),
            ) ==> actions@ == seq![
                Action::<P, E>::UpdateStatus(head_spec(header)),
                Action::<P, E>::Notify(told),
            ],
    {
        let mut actions: Vec<Action<P, E>> = Vec::new();
        match event {
            Event::Payload(executed) => {
                if let Some(block) = executed {
                    actions.push(Action::InsertExecutedBlock(block));
                }
            },
            Event::Service(None) => {
                self.status = EngineStatus::Finished;
            },
            Event::Service(Some(event)) => match event {
                ChainEvent::BackfillSyncFinished => {
                    actions.push(Action::UpdateSyncState(SyncState::Idle));
                },
                ChainEvent::BackfillSyncStarted => {
                    actions.push(Action::UpdateSyncState(SyncState::Syncing));
                },
                ChainEvent::FatalError => {
                    self.status = EngineStatus::Failed;
                },
                ChainEvent::Handler { event, canonical } => {
                    if let Some(header) = canonical {
                        actions.push(Action::UpdateStatus(head(&header)));
                    }
                    actions.push(Action::Notify(event));
                },
            },
        }
        actions
    }

    /// What the node exits with. `None` while the loop runs.
    pub fn exit_result(&self) -> (exit: Option<Result<(), EngineError>>)
        ensures
            exit == (match self.status() {
                EngineStatus::Running => None,
                EngineStatus::Finished => Some(Ok::<(), EngineError>(())),
                EngineStatus::Failed => Some(Err::<(), EngineError>(EngineError::Fatal)),
            }),
    {
        match self.status {
            EngineStatus::Running => None,
            EngineStatus::Finished => Some(Ok(())),
            EngineStatus::Failed => Some(Err(EngineError::Fatal)),
        }
    }
}

/// Where the loop stands once it was given `events`, of which it takes none
/// after it has stopped.
pub open spec fn status_of<P, E>(events: Seq<Event<P, E>>) -> EngineStatus
    decreases events.len(),
{
    if events.len() == 0 {
        EngineStatus::Running
    } else {
        let before = status_of(events.drop_last());
        if before == EngineStatus::Running {
            status_after(events.last())
        } else {
            before
        }
    }
}

/// The events that the loop takes of `events`.
pub open spec fn taken<P, E>(events: Seq<Event<P, E>>) -> Seq<Event<P, E>>
    decreases events.len(),
{
    if events.len() == 0 {
        Seq::empty()
    } else if status_of(events.drop_last()) == EngineStatus::Running {
        taken(events.drop_last()).push(events.last())
    } else {
        taken(events.drop_last())
    }
}

/// All that the loop asks for on `events`, in order.
pub open spec fn actions_of<P, E>(events: Seq<Event<P, E>>) -> Seq<Action<P, E>>
    decreases events.len(),
{
    if events.len() == 0 {
        Seq::empty()
    } else if status_of(events.drop_last()) == EngineStatus::Running {
        actions_of(events.drop_last()) + actions_for(events.last())
    } else {
        actions_of(events.drop_last())
    }
}

/// The handler events among `events`, in order.
pub open spec fn handler_events<P, E>(events: Seq<Event<P, E>>) -> Seq<E>
    decreases events.len(),
{
    if events.len() == 0 {
        Seq::empty()
    } else {
        let before = handler_events(events.drop_last());
        match events.last() {
            Event::Service(Some(ChainEvent::Handler { event, .. })) => before.push(event),
            _ => before,
        }
    }
}

/// What the listeners are told by `actions`, in order.
pub open spec fn notifications<P, E>(actions: Seq<Action<P, E>>) -> Seq<E>
    decreases actions.len(),
{
    if actions.len() == 0 {
        Seq::empty()
    } else {
        let before = notifications(actions.drop_last());
        match actions.last() {
            Action::Notify(event) => before.push(event),
            _ => before,
        }
    }
}

/// The executed blocks among `events`, in order.
pub open spec fn executed_blocks<P, E>(events: Seq<Event<P, E>>) -> Seq<P>
    decreases events.len(),
{
    if events.len() == 0 {
        Seq::empty()
    } else {
        let before = executed_blocks(events.drop_last());
        match events.last() {
            Event::Payload(Some(block)) => before.push(block),
            _ => before,
        }
    }
}

/// The blocks that `actions` give to the engine, in order.
pub open spec fn insertions<P, E>(actions: Seq<Action<P, E>>) -> Seq<P>
    decreases actions.len(),
{
    if actions.len() == 0 {
        Seq::empty()
    } else {
        let before = insertions(actions.drop_last());
        match actions.last() {
            Action::InsertExecutedBlock(block) => before.push(block),
            _ => before,
        }
    }
}

/// The state that the last start or end of catching up among `events` leaves
/// the node in. `None` where there is none.
pub open spec fn backfill_state<P, E>(events: Seq<Event<P, E>>) -> Option<SyncState>
    decreases events.len(),
{
    if events.len() == 0 {
        None
    } else {
        match events.last() {
            Event::Service(Some(ChainEvent::BackfillSyncStarted)) => Some(SyncState::Syncing),
            Event::Service(Some(ChainEvent::BackfillSyncFinished)) => Some(SyncState::Idle),
            _ => backfill_state(events.drop_last()),
        }
    }
}

/// The sync state that the network was told last by `actions`.
pub open spec fn told_sync_state<P, E>(actions: Seq<Action<P, E>>) -> Option<SyncState>
    decreases actions.len(),
{
    if actions.len() == 0 {
        None
    } else {
        match actions.last() {
            Action::UpdateSyncState(state) => Some(state),
            _ => told_sync_state(actions.drop_last()),
        }
    }
}

/// The head that the last canonical header among `events` makes.
pub open spec fn canonical_head<P, E>(events: Seq<Event<P, E>>) -> Option<Head>
    decreases events.len(),
{
    if events.len() == 0 {
        None
    } else {
        match events.last() {
            Event::Service(Some(ChainEvent::Handler { canonical: Some(header), .. })) => Some(
                head_spec(header),
            ),
            _ => canonical_head(events.drop_last()),
        }
    }
}

/// The head that the network was told last by `actions`.
pub open spec fn told_head<P, E>(actions: Seq<Action<P, E>>) -> Option<Head>
    decreases actions.len(),
{
    if actions.len() == 0 {
        None
    } else {
        match actions.last() {
            Action::UpdateStatus(head) => Some(head),
            _ => told_head(actions.drop_last()),
        }
    }
}

/// The loop runs on through events that do not stop it, and the first event
/// that stops it decides whether the node exits with an error.
pub proof fn law_first_stopping_event_decides<P, E>(events: Seq<Event<P, E>>)
    ensures
        status_of(events) == EngineStatus::Running <==> forall|i: int|
            0 <= i < events.len() ==> status_after(#[trigger] events[i]) == EngineStatus::Running,
        status_of(events) != EngineStatus::Running ==> exists|i: int|
            {
                &&& 0 <= i < events.len()
                &&& status_after(#[trigger] events[i]) == status_of(events)
                &&& status_of(events.take(i)) == EngineStatus::Running
            },
    decreases events.len(),
{
    if events.len() > 0 {
        let before = events.drop_last();
        let last = events.len() - 1;
        law_first_stopping_event_decides(before);
        assert(forall|i: int| 0 <= i < before.len() ==> #[trigger] before[i] == events[i]);
        if status_of(before) == EngineStatus::Running {
            assert(events[last] == events.last());
            assert(events.take(last) =~= before);
            assert forall|i: int| 0 <= i < events.len() && status_of(events)
                == EngineStatus::Running implies status_after(#[trigger] events[i])
                == EngineStatus::Running by {
                if i < before.len() {
                    assert(before[i] == events[i]);
                }
            }
        } else {
            let i = choose|i: int|
                {
                    &&& 0 <= i < before.len()
                    &&& status_after(#[trigger] before[i]) == status_of(before)
                    &&& status_of(before.take(i)) == EngineStatus::Running
                };
            assert(before[i] == events[i]);
            assert(events.take(i) =~= before.take(i));
        }
    }
}

/// The loop runs on exactly as long as no event is the end of the service or a
/// fatal error, and of these the first decides how the node exits.
pub proof fn law_loop_runs_until_the_end_or_a_fatal_error<P, E>(events: Seq<Event<P, E>>)
    ensures
        status_of(events) == EngineStatus::Running <==> forall|i: int|
            0 <= i < events.len() ==> !((#[trigger] events[i]) matches Event::Service(None)) && !(
            events[i] matches Event::Service(Some(ChainEvent::FatalError))),
        status_of(events) == EngineStatus::Failed ==> exists|i: int|
            0 <= i < events.len() && ((#[trigger] events[i]) matches Event::Service(
                Some(ChainEvent::FatalError),
            )) && status_of(events.take(i)) == EngineStatus::Running,
        status_of(events) == EngineStatus::Finished ==> exists|i: int|
            0 <= i < events.len() && ((#[trigger] events[i]) matches Event::Service(None))
                && status_of(events.take(i)) == EngineStatus::Running,
{
    law_first_stopping_event_decides(events);
}

/// A loop that has stopped stays as it is, and asks for nothing more.
pub proof fn law_nothing_after_the_stop<P, E>(events: Seq<Event<P, E>>, later: Seq<Event<P, E>>)
    requires
        status_of(events) != EngineStatus::Running,
    ensures
        status_of(events + later) == status_of(events),
        actions_of(events + later) == actions_of(events),
    decreases later.len(),
{
    if later.len() == 0 {
        assert(events + later =~= events);
    } else {
        law_nothing_after_the_stop(events, later.drop_last());
        assert((events + later).drop_last() =~= events + later.drop_last());
    }
}

/// How the actions of one more event add up.
proof fn lemma_actions_append<P, E>(actions: Seq<Action<P, E>>, event: Event<P, E>)
    ensures
        notifications(actions + actions_for(event)) == (match event {
            Event::Service(Some(ChainEvent::Handler { event, .. })) => notifications(actions).push(
                event,
            ),
            _ => notifications(actions),
        }),
        insertions(actions + actions_for(event)) == (match event {
            Event::Payload(Some(block)) => insertions(actions).push(block),
            _ => insertions(actions),
        }),
        told_sync_state(actions + actions_for(event)) == (match event {
            Event::Service(Some(ChainEvent::BackfillSyncStarted)) => Some(SyncState::Syncing),
            Event::Service(Some(ChainEvent::BackfillSyncFinished)) => Some(SyncState::Idle),
            _ => told_sync_state(actions),
        }),
        told_head(actions + actions_for(event)) == (match event {
            Event::Service(Some(ChainEvent::Handler { canonical: Some(header), .. })) => Some(
                head_spec(header),
            ),
            _ => told_head(actions),
        }),
{
    reveal_with_fuel(notifications, 3);
    reveal_with_fuel(insertions, 3);
    reveal_with_fuel(told_sync_state, 3);
    reveal_with_fuel(told_head, 3);
    let added = actions_for(event);
    let all = actions + added;
    if added.len() == 0 {
        assert(all =~= actions);
    } else if added.len() == 1 {
        assert(all.drop_last() =~= actions);
        assert(all.last() == added[0]);
    } else {
        assert(all.drop_last() =~= actions.push(added[0]));
        assert(all.drop_last().drop_last() =~= actions);
        assert(all.last() == added[1]);
    }
}

/// Each handler event that the loop takes is told to the listeners once, in
/// the order in which the events came, and nothing else is.
pub proof fn law_handler_events_are_notified<P, E>(events: Seq<Event<P, E>>)
    ensures
        notifications(actions_of(events)) == handler_events(taken(events)),
    decreases events.len(),
{
    if events.len() > 0 {
        law_handler_events_are_notified(events.drop_last());
        lemma_actions_append(actions_of(events.drop_last()), events.last());
        assert(taken(events.drop_last()).push(events.last()).drop_last() =~= taken(
            events.drop_last(),
        ));
    }
}

/// Each executed block of a payload that the loop takes is given to the
/// engine once, in the order in which the payloads came, and no other is.
pub proof fn law_executed_blocks_are_inserted<P, E>(events: Seq<Event<P, E>>)
    ensures
        insertions(actions_of(events)) == executed_blocks(taken(events)),
    decreases events.len(),
{
    if events.len() > 0 {
        law_executed_blocks_are_inserted(events.drop_last());
        lemma_actions_append(actions_of(events.drop_last()), events.last());
        assert(taken(events.drop_last()).push(events.last()).drop_last() =~= taken(
            events.drop_last(),
        ));
    }
}

/// What the network was told last, of catching up and of the head, is what
/// the events that the loop took say.
pub proof fn law_network_is_up_to_date<P, E>(events: Seq<Event<P, E>>)
    ensures
        told_sync_state(actions_of(events)) == backfill_state(taken(events)),
        told_head(actions_of(events)) == canonical_head(taken(events)),
    decreases events.len(),
{
    if events.len() > 0 {
        law_network_is_up_to_date(events.drop_last());
        lemma_actions_append(actions_of(events.drop_last()), events.last());
        assert(taken(events.drop_last()).push(events.last()).drop_last() =~= taken(
            events.drop_last(),
        ));
    }
}

} // verus!
