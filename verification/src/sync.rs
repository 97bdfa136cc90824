//! Synchronisation between nodes and their host: what a node sends, what
//! the host keeps, and how the sent events update the books.
use vstd::prelude::*;
use crate::actors::Actor;
use crate::currencies::Currency;
use crate::date::Datetime;
use crate::events::{apply_event_with_id, event_spec, events_fit, events_reached, events_spec, Event};
use crate::ids::{ActorId, AppId, CurrencyId, DebtId, EventId, ItemTagId, WalletId};
use crate::item_tags::ItemTag;
use crate::snapshot::{Snapshot, SnapshotView};
use crate::wallets::Wallet;

verus! {

/// A save refused because the record is there already.
#[derive(Debug, Clone, Copy, PartialEq, Eq, Structural)]
pub enum UniqueSaveError {
    AlreadyExists,
}

/// Where a node should start sending events from.
#[derive(Debug, Clone, Copy)]
pub struct SyncGuide {
    pub last_event_date: Option<Datetime>,
}

/// An event as a node recorded it.
#[derive(Debug, Clone)]
pub struct EventEntry {
    pub id: EventId,
    pub event: Event,
    pub created_at: Datetime,
}

/// The records a node knows of.
#[derive(Debug, Clone)]
pub struct Catalog {
    pub actors: Vec<(ActorId, Actor)>,
    pub currencies: Vec<(CurrencyId, Currency)>,
    pub items: Vec<(ItemTagId, ItemTag)>,
    pub wallets: Vec<(WalletId, Wallet)>,
}

/// What a node sends to its host: its new events and its records.
#[derive(Debug, Clone)]
pub struct NodeChanges {
    pub events: Vec<EventEntry>,
    pub data: Catalog,
}

/// What the host holds: the books and the records.
pub struct HostState {
    pub snapshot: Snapshot,
    pub data: Catalog,
}

/// Why the changes of a node were refused.
#[derive(Debug, Clone, Copy)]
pub enum SyncError {
    Event(crate::events::Error),
    Save(UniqueSaveError),
}

impl From<UniqueSaveError> for SyncError {
    fn from(error: UniqueSaveError) -> (r: Self) {
        SyncError::Save(error)
    }
}

impl vstd::std_specs::convert::FromSpecImpl<UniqueSaveError> for SyncError {
    open spec fn obeys_from_spec() -> bool {
        true
    }

    open spec fn from_spec(error: UniqueSaveError) -> Self {
        SyncError::Save(error)
    }
}

/// Announces that a node was synchronised.
#[derive(Debug, Clone, Copy)]
pub struct NodeSynced(pub AppId);

impl NodeSynced {
    /// The name the event is published under.
    pub fn name(&self) -> (r: &'static str)
        ensures
            r@ == "NodeSynced"@,
    {
        "NodeSynced"
    }

    /// The version of the event.
    pub fn version(&self) -> (r: &'static str)
        ensures
            r@ == "1.0.0"@,
    {
        "1.0.0"
    }
}

/// The events of the entries, in order.
pub open spec fn entry_events(entries: Seq<EventEntry>) -> Seq<Event> {
    entries.map_values(|e: EventEntry| e.event)
}

/// Applies the events of a node in turn, the `i`-th registered debt or loan
/// kept under `ids[i]`, stopping at the first refusal (see
/// `events::events_spec`); the books are left as `events::events_reached`
/// says.
pub fn apply_entries_with_ids(
    snapshot: &mut Snapshot,
    entries: &Vec<EventEntry>,
    ids: &Vec<DebtId>,
) -> (r: Result<(), SyncError>)
    requires
        old(snapshot).wf(),
        ids.len() == entries.len(),
        events_fit(old(snapshot)@, entry_events(entries@), ids@),
    ensures
        final(snapshot).wf(),
        final(snapshot)@ == events_reached(old(snapshot)@, entry_events(entries@), ids@),
        match r {
            Ok(_) => events_spec(old(snapshot)@, entry_events(entries@), ids@) == Ok::<
                SnapshotView,
                crate::events::Error,
            >(final(snapshot)@),
            Err(SyncError::Event(e)) => events_spec(old(snapshot)@, entry_events(entries@), ids@)
                == Err::<SnapshotView, crate::events::Error>(e),
            Err(SyncError::Save(_)) => false,
        },
{
    let ghost s0 = snapshot@;
    let ghost evs = entry_events(entries@);
    let mut i: usize = 0;
    assert(evs.skip(0) =~= evs);
    assert(ids@.skip(0) =~= ids@);
    while i < entries.len()
        invariant
            0 <= i <= entries.len(),
            ids.len() == entries.len(),
            evs == entry_events(entries@),
            evs.len() == entries.len(),
            snapshot.wf(),
            s0 == old(snapshot)@,
            events_spec(s0, evs, ids@) == events_spec(
                snapshot@,
                evs.skip(i as int),
                ids@.skip(i as int),
            ),
            events_reached(s0, evs, ids@) == events_reached(
                snapshot@,
                evs.skip(i as int),
                ids@.skip(i as int),
            ),
            events_fit(snapshot@, evs.skip(i as int), ids@.skip(i as int)),
        decreases entries.len() - i,
    {
        let ghost before = snapshot@;
        proof {
            assert(evs.skip(i as int)[0] == entries@[i as int].event);
            assert(ids@.skip(i as int)[0] == ids@[i as int]);
            assert(evs.skip(i as int).drop_first() =~= evs.skip(i + 1));
            assert(ids@.skip(i as int).drop_first() =~= ids@.skip(i + 1));
        }
        let outcome = apply_event_with_id(snapshot, &entries[i].event, ids[i]);
        if let Err(e) = outcome {
            assert(event_spec(before, evs[i as int], ids@[i as int]) == Err::<
                SnapshotView,
                crate::events::Error,
            >(e));
            assert(events_spec(before, evs.skip(i as int), ids@.skip(i as int)) == Err::<
                SnapshotView,
                crate::events::Error,
            >(e));
            assert(events_reached(before, evs.skip(i as int), ids@.skip(i as int)) == before);
            return Err(SyncError::Event(e));
        }
        i = i + 1;
    }
    Ok(())
}

/// Applies the events of a node in turn, each registered debt or loan kept
/// under a fresh random identifier, stopping at the first refusal; the
/// outcome is that of `events::events_spec` for some identifiers.
pub fn apply_entries(snapshot: &mut Snapshot, entries: &Vec<EventEntry>) -> (r: Result<
    (),
    SyncError,
>)
    requires
        old(snapshot).wf(),
        forall|ids: Seq<DebtId>|
            ids.len() == entries.len() ==> #[trigger] events_fit(
                old(snapshot)@,
                entry_events(entries@),
                ids,
            ),
    ensures
        final(snapshot).wf(),
        r !is Ok ==> r matches Err(SyncError::Event(_)),
        exists|ids: Seq<DebtId>|
            ids.len() == entries.len() && final(snapshot)@ == events_reached(
                old(snapshot)@,
                entry_events(entries@),
                ids,
            ) && match r {
                Ok(_) => events_spec(old(snapshot)@, entry_events(entries@), ids) == Ok::<
                    SnapshotView,
                    crate::events::Error,
                >(final(snapshot)@),
                Err(SyncError::Event(e)) => events_spec(old(snapshot)@, entry_events(entries@), ids)
                    == Err::<SnapshotView, crate::events::Error>(e),
                Err(SyncError::Save(_)) => false,
            },
{
    let mut ids: Vec<DebtId> = Vec::new();
    let mut i: usize = 0;
    while i < entries.len()
        invariant
            0 <= i <= entries.len(),
            ids.len() == i,
        decreases entries.len() - i,
    {
        ids.push(DebtId::new());
        i = i + 1;
    }
    proof {
        assert(events_fit(snapshot@, entry_events(entries@), ids@));
    }
    apply_entries_with_ids(snapshot, entries, &ids)
}

/// What happened since the last step of taking in a node's changes.
#[derive(Debug, Clone, Copy)]
pub enum SyncEvent {
    /// The node's events were applied to the books
    EventsApplied(Result<(), crate::events::Error>),
    /// The node's records were saved
    ChangesSaved(Result<(), UniqueSaveError>),
}

/// What to do next when taking in a node's changes.
#[derive(Debug, Clone, Copy)]
pub enum SyncAction {
    /// Save the node's records
    SaveChanges,
    /// Save the events and the books, then announce the node synchronised
    Commit,
    /// Record the error against the node and give it back
    Fail(SyncError),
}

/// The step of taking in a node's changes: refused events, then refused
/// records, fail the synchronisation; otherwise everything is kept.
pub open spec fn sync_step_spec(event: SyncEvent) -> SyncAction {
    match event {
        SyncEvent::EventsApplied(Ok(())) => SyncAction::SaveChanges,
        SyncEvent::EventsApplied(Err(e)) => SyncAction::Fail(SyncError::Event(e)),
        SyncEvent::ChangesSaved(Ok(())) => SyncAction::Commit,
        SyncEvent::ChangesSaved(Err(e)) => SyncAction::Fail(SyncError::Save(e)),
    }
}

/// Decides the next step of taking in a node's changes (see
/// `sync_step_spec`).
pub fn sync_step(event: SyncEvent) -> (r: SyncAction)
    ensures
        r == sync_step_spec(event),
{
    match event {
        SyncEvent::EventsApplied(Ok(())) => SyncAction::SaveChanges,
        SyncEvent::EventsApplied(Err(e)) => SyncAction::Fail(SyncError::Event(e)),
        SyncEvent::ChangesSaved(Ok(())) => SyncAction::Commit,
        SyncEvent::ChangesSaved(Err(e)) => SyncAction::Fail(SyncError::Save(e)),
    }
}

/// Taking in a node's changes goes on to save its records only after all
/// its events were applied, commits only after the records were saved, and
/// fails with the refusal, whichever it was, as soon as one comes.
pub proof fn lemma_sync_steps(event: SyncEvent)
    ensures
        event == SyncEvent::EventsApplied(Ok(())) ==> sync_step_spec(event) == SyncAction::SaveChanges,
        event == SyncEvent::ChangesSaved(Ok(())) ==> sync_step_spec(event) == SyncAction::Commit,
        forall|e: crate::events::Error|
            event == SyncEvent::EventsApplied(Err(e)) ==> #[trigger] sync_step_spec(event)
                == SyncAction::Fail(SyncError::Event(e)),
        forall|e: UniqueSaveError|
            event == SyncEvent::ChangesSaved(Err(e)) ==> #[trigger] sync_step_spec(event)
                == SyncAction::Fail(SyncError::Save(e)),
        sync_step_spec(event) == SyncAction::Commit ==> event == SyncEvent::ChangesSaved(Ok(())),
        sync_step_spec(event) == SyncAction::SaveChanges ==> event == SyncEvent::EventsApplied(Ok(())),
{
    match event {
        SyncEvent::EventsApplied(Ok(u)) => {
            assert(u == ());
        },
        SyncEvent::ChangesSaved(Ok(u)) => {
            assert(u == ());
        },
        _ => {},
    }
}

} // verus!
