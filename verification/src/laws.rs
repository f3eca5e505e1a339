use vstd::prelude::*;
use crate::audit::audit_allows;
use crate::event::{Event, EventEntry};
use crate::ids::UserId;
use crate::queries::{dep_keys, deps_bounded, deps_fresh, doc_step, doc_steps, epoch_of, DocView};
use crate::snapshot::SnapshotView;
use crate::state::{state_step, states_step, StateView};
use crate::CoreView;
use crate::{apply_entries, apply_one};

verus! {

/// An owner-management event from a current owner — or from anyone while no
/// owner exists yet — is admitted, and an admitted entry changes the
/// document index, the history, every registered subscriber and the
/// snapshot by exactly one step each.
pub proof fn law_admitted_event_applies_once(c: CoreView, entry: EventEntry)
    requires
        match entry.event {
            Event::AddOwner { .. } | Event::RemoveOwner { .. } => c.snapshot.owners.contains(
                entry.user_id,
            ) || c.snapshot.owners.len() == 0,
            Event::AddFile(_) | Event::PatchFile { .. } => c.snapshot.owners.contains(
                entry.user_id,
            ),
            _ => audit_allows(c.snapshot, entry),
        },
    ensures
        audit_allows(c.snapshot, entry),
        apply_one(c, entry).history == c.history.push(entry.event),
        apply_one(c, entry).snapshot == crate::snapshot::snapshot_step(c.snapshot, entry.event),
        apply_one(c, entry).doc == doc_step(c.doc, entry.event),
        apply_one(c, entry).states.len() == c.states.len(),
        forall|i: int|
            0 <= i < c.states.len() ==> apply_one(c, entry).states[i] == state_step(
                c.states[i],
                c.snapshot,
                entry.event,
            ),
{
}

/// A rules-granted node event is admitted: the file's rules grant the
/// event's operation to the actor, with the per-user override taking
/// precedence over the default set.
pub proof fn law_granted_node_event_admitted(c: CoreView, entry: EventEntry)
    requires
        entry.event matches Event::AddNode { file_id, .. } && c.snapshot.rules.contains_key(
            file_id.0,
        ) && c.snapshot.rules[file_id.0].spec_grants(
            entry.user_id,
            crate::rules::NodeOperation::AddNode,
        ),
    ensures
        audit_allows(c.snapshot, entry),
{
}

/// A denied entry — one from a non-owner, or from an under-permissioned
/// actor — leaves every component's observable state exactly as it was.
pub proof fn law_denied_event_changes_nothing(c: CoreView, entry: EventEntry)
    requires
        !audit_allows(c.snapshot, entry),
    ensures
        apply_one(c, entry) == c,
{
}

/// Processing an empty poll result is the identity on all state.
pub proof fn law_empty_batch_is_identity(c: CoreView)
    ensures
        apply_entries(c, Seq::<EventEntry>::empty()) == c,
{
}

/// State isolation: for every admitted entry, every registered subscriber —
/// whatever its kind — receives that entry exactly once, in admission
/// order, observing the snapshot as of immediately before the entry: an
/// event-log subscriber appends exactly the event, and an ownership-log
/// subscriber appends exactly the owner count the pre-event snapshot held.
pub proof fn law_state_isolation(sv: Seq<StateView>, snapshot: SnapshotView, e: Event)
    ensures
        states_step(sv, snapshot, e).len() == sv.len(),
        forall|i: int|
            0 <= i < sv.len() ==> #[trigger] states_step(sv, snapshot, e)[i].len() == sv[i].len()
                + 1,
        forall|i: int|
            0 <= i < sv.len() ==> (#[trigger] sv[i] matches StateView::EventLog(r)
                ==> states_step(sv, snapshot, e)[i] == StateView::EventLog(r.push(e))),
        forall|i: int|
            0 <= i < sv.len() ==> (#[trigger] sv[i] matches StateView::OwnershipLog(r)
                ==> states_step(sv, snapshot, e)[i] == StateView::OwnershipLog(
                r.push(snapshot.owners.len() as u64),
            )),
{
    assert forall|i: int|
        0 <= i < sv.len() implies #[trigger] states_step(sv, snapshot, e)[i].len() == sv[i].len()
        + 1 by {
        assert(states_step(sv, snapshot, e)[i] == state_step(sv[i], snapshot, e));
    }
}

/// Incremental correctness, invalidation side: a write to a node that a
/// memoized result never read leaves every recorded epoch current, so the
/// result stays servable from cache; and any write to a node it did read
/// changes that node's epoch, so the result silently loses its freshness.
pub proof fn law_untouched_write_keeps_freshness(d: DocView, e: Event, deps: Seq<(u64, u64)>)
    requires
        deps_fresh(d.epochs, deps),
        deps_bounded(deps, d.rev),
        d.rev < u64::MAX,
        forall|k: u64| d.epochs.contains_key(k) ==> #[trigger] d.epochs[k] < d.rev,
    ensures
        (match e.written_node() {
            Some(n) => !dep_keys(deps).contains(n.0),
            None => true,
        }) ==> deps_fresh(doc_step(d, e).epochs, deps),
        (match e.written_node() {
            Some(n) => dep_keys(deps).contains(n.0),
            None => false,
        }) ==> !deps_fresh(doc_step(d, e).epochs, deps),
{
    match e.written_node() {
        None => {},
        Some(n) => {
            let d2 = doc_step(d, e);
            if !dep_keys(deps).contains(n.0) {
                assert forall|i: int|
                    0 <= i < deps.len() implies #[trigger] deps[i].1 == epoch_of(
                    d2.epochs,
                    deps[i].0,
                ) by {
                    assert(deps[i].0 != n.0) by {
                        if deps[i].0 == n.0 {
                            assert(dep_keys(deps).contains(n.0));
                        }
                    }
                    assert(epoch_of(d2.epochs, deps[i].0) == epoch_of(d.epochs, deps[i].0));
                }
            } else {
                let i = choose|i: int| 0 <= i < deps.len() && deps[i].0 == n.0;
                assert(deps[i].1 < d.rev);
                assert(epoch_of(d2.epochs, deps[i].0) == d.rev);
            }
        },
    }
}

/// Batches compose entry by entry: extending a batch applies exactly one
/// more gated step to its result.
pub proof fn law_batch_step(c: CoreView, s: Seq<EventEntry>, e: EventEntry)
    ensures
        apply_entries(c, s.push(e)) == apply_one(apply_entries(c, s), e),
{
    assert(s.push(e).drop_last() =~= s);
    assert(s.push(e).last() == e);
}


/// The input-layer bounds every reachable engine state satisfies: the next
/// stamp outruns every epoch.
pub open spec fn doc_bounded(d: DocView) -> bool {
    &&& d.rev >= 1
    &&& forall|k: u64| d.epochs.contains_key(k) ==> #[trigger] d.epochs[k] < d.rev
}

/// One write keeps the input-layer bounds, and cannot lower the stamp,
/// while the batch has stamp headroom.
pub proof fn law_step_keeps_bounds(d: DocView, e: Event)
    requires
        doc_bounded(d),
        d.rev < u64::MAX,
    ensures
        doc_bounded(doc_step(d, e)),
        d.rev <= doc_step(d, e).rev,
        doc_step(d, e).rev <= d.rev + 1,
{
}

/// Incremental correctness across a whole batch, cache side: a batch of
/// admitted events none of which writes a primitive input the memoized
/// result read leaves every recorded epoch current — the result stays
/// servable as the identical cached instance, with no recomputation.
pub proof fn law_untouched_batch_keeps_freshness(
    d: DocView,
    events: Seq<Event>,
    deps: Seq<(u64, u64)>,
)
    requires
        doc_bounded(d),
        deps_fresh(d.epochs, deps),
        deps_bounded(deps, d.rev),
        d.rev + events.len() <= u64::MAX,
        forall|j: int|
            0 <= j < events.len() ==> (match (#[trigger] events[j]).written_node() {
                Some(n) => !dep_keys(deps).contains(n.0),
                None => true,
            }),
    ensures
        deps_fresh(doc_steps(d, events).epochs, deps),
    decreases events.len(),
{
    if events.len() > 0 {
        let d2 = doc_step(d, events[0]);
        law_untouched_write_keeps_freshness(d, events[0], deps);
        law_step_keeps_bounds(d, events[0]);
        assert forall|j: int|
            0 <= j < events.drop_first().len() implies (match (#[trigger] events.drop_first()[
        j]).written_node() {
            Some(n) => !dep_keys(deps).contains(n.0),
            None => true,
        }) by {
            assert(events.drop_first()[j] == events[j + 1]);
        }
        law_untouched_batch_keeps_freshness(d2, events.drop_first(), deps);
    }
}

/// Once one recorded epoch has fallen behind, no later write can catch it
/// up: every stamp a write assigns is at least `floor`, while the recorded
/// epoch is below it.
proof fn lemma_broken_stays_broken(
    d: DocView,
    events: Seq<Event>,
    deps: Seq<(u64, u64)>,
    floor: u64,
)
    requires
        doc_bounded(d),
        d.rev + events.len() <= u64::MAX,
        floor <= d.rev,
        exists|i: int|
            0 <= i < deps.len() && (#[trigger] deps[i].1) < floor && epoch_of(
                d.epochs,
                deps[i].0,
            ) >= floor,
    ensures
        exists|i: int|
            0 <= i < deps.len() && (#[trigger] deps[i].1) < floor && epoch_of(
                doc_steps(d, events).epochs,
                deps[i].0,
            ) >= floor,
    decreases events.len(),
{
    if events.len() > 0 {
        let d2 = doc_step(d, events[0]);
        law_step_keeps_bounds(d, events[0]);
        let i = choose|i: int|
            0 <= i < deps.len() && (#[trigger] deps[i].1) < floor && epoch_of(
                d.epochs,
                deps[i].0,
            ) >= floor;
        assert(epoch_of(d2.epochs, deps[i].0) >= floor) by {
            match events[0].written_node() {
                Some(n) => {
                    if n.0 == deps[i].0 {
                        assert(epoch_of(d2.epochs, deps[i].0) == d.rev);
                    }
                },
                None => {},
            }
        }
        lemma_broken_stays_broken(d2, events.drop_first(), deps, floor);
    }
}

/// Incremental correctness across a whole batch, invalidation side: a batch
/// holding even one admitted write to a primitive input the memoized result
/// read leaves the result permanently un-fresh — the next query must
/// recompute from the current inputs and can never serve the stale value.
pub proof fn law_touched_batch_breaks_freshness(
    d: DocView,
    events: Seq<Event>,
    deps: Seq<(u64, u64)>,
)
    requires
        doc_bounded(d),
        deps_fresh(d.epochs, deps),
        deps_bounded(deps, d.rev),
        d.rev + events.len() <= u64::MAX,
        exists|j: int|
            0 <= j < events.len() && (match (#[trigger] events[j]).written_node() {
                Some(n) => dep_keys(deps).contains(n.0),
                None => false,
            }),
    ensures
        !deps_fresh(doc_steps(d, events).epochs, deps),
    decreases events.len(),
{
    let d2 = doc_step(d, events[0]);
    law_step_keeps_bounds(d, events[0]);
    let touches0 = match events[0].written_node() {
        Some(n) => dep_keys(deps).contains(n.0),
        None => false,
    };
    if touches0 {
        let n = events[0].written_node().unwrap();
        let i = choose|i: int| 0 <= i < deps.len() && deps[i].0 == n.0;
        assert(deps[i].1 < d.rev);
        assert(epoch_of(d2.epochs, deps[i].0) == d.rev);
        lemma_broken_stays_broken(d2, events.drop_first(), deps, d.rev);
        let iw = choose|i: int|
            0 <= i < deps.len() && (#[trigger] deps[i].1) < d.rev && epoch_of(
                doc_steps(d2, events.drop_first()).epochs,
                deps[i].0,
            ) >= d.rev;
        assert(deps[iw].1 != epoch_of(doc_steps(d, events).epochs, deps[iw].0));
    } else {
        law_untouched_write_keeps_freshness(d, events[0], deps);
        let j = choose|j: int|
            0 <= j < events.len() && (match (#[trigger] events[j]).written_node() {
                Some(n) => dep_keys(deps).contains(n.0),
                None => false,
            });
        assert(j >= 1);
        assert(events.drop_first()[j - 1] == events[j]);
        assert(deps_bounded(deps, d2.rev)) by {
            assert forall|i: int|
                0 <= i < deps.len() implies #[trigger] deps[i].1 < d2.rev by {
                assert(deps[i].1 < d.rev);
            }
        }
        law_touched_batch_breaks_freshness(d2, events.drop_first(), deps);
    }
}


/// The events a batch admits, in admission order: each entry is gated by
/// the audit against the snapshot as it stands when the entry applies.
pub open spec fn admitted_events(c: CoreView, s: Seq<EventEntry>) -> Seq<Event>
    decreases s.len(),
{
    if s.len() == 0 {
        Seq::empty()
    } else {
        let prior = apply_entries(c, s.drop_last());
        let rest = admitted_events(c, s.drop_last());
        if audit_allows(prior.snapshot, s.last()) {
            rest.push(s.last().event)
        } else {
            rest
        }
    }
}

/// Folding the input layer over one more event is one more step.
proof fn lemma_doc_steps_push(d: DocView, es: Seq<Event>, e: Event)
    ensures
        doc_steps(d, es.push(e)) == doc_step(doc_steps(d, es), e),
    decreases es.len(),
{
    assert(es.push(e).len() == es.len() + 1);
    if es.len() == 0 {
        assert(es.push(e)[0] == e);
        assert(es.push(e).drop_first() =~= Seq::<Event>::empty());
        assert(es.push(e).drop_first() == Seq::<Event>::empty());
        assert(doc_steps(d, es.push(e)) == doc_steps(doc_step(d, e), Seq::<Event>::empty()));
        assert(doc_steps(d, es) == d);
    } else {
        assert(es.push(e)[0] == es[0]);
        assert(es.push(e).drop_first() =~= es.drop_first().push(e));
        assert(es.push(e).drop_first() == es.drop_first().push(e));
        assert(doc_steps(d, es.push(e)) == doc_steps(
            doc_step(d, es[0]),
            es.drop_first().push(e),
        ));
        lemma_doc_steps_push(doc_step(d, es[0]), es.drop_first(), e);
        assert(doc_steps(d, es) == doc_steps(doc_step(d, es[0]), es.drop_first()));
    }
}

/// The document index a batch leaves behind is exactly the admitted events
/// folded over the input layer: denied entries leave no trace, and
/// invalidation is driven by the admitted writes alone. Together with the
/// batch freshness laws and each query's cache-hit clause, this ties
/// `process` to the queries: a batch admitting no write into a memoized
/// result's recorded inputs leaves the next query serving the identical
/// instance, and a batch admitting such a write forces recomputation.
pub proof fn law_batch_doc_is_admitted_fold(c: CoreView, s: Seq<EventEntry>)
    ensures
        apply_entries(c, s).doc == doc_steps(c.doc, admitted_events(c, s)),
    decreases s.len(),
{
    if s.len() > 0 {
        law_batch_doc_is_admitted_fold(c, s.drop_last());
        let prior = apply_entries(c, s.drop_last());
        if audit_allows(prior.snapshot, s.last()) {
            lemma_doc_steps_push(c.doc, admitted_events(c, s.drop_last()), s.last().event);
        }
    }
}

/// Bootstrapping: with no owners at all, any user may appoint the first
/// owner; once an owner exists, only owners manage ownership.
pub proof fn law_owner_bootstrap(c: CoreView, user: UserId, actor: UserId)
    requires
        c.snapshot.owners.len() == 0,
    ensures
        audit_allows(
            c.snapshot,
            EventEntry { index: 0, user_id: actor, event: Event::AddOwner { user_id: user } },
        ),
{
}

} // verus!
