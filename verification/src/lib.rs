//! State-management and incremental-compilation kernel for a collaborative,
//! node-based program-authoring environment.
//!
//! Users mutate a shared graph of program nodes through events appended to a
//! log held by a repository. The kernel gates each polled event through
//! per-file, per-user authorization rules, projects admitted events into a
//! snapshot, fans them out to an append-only history and to registered
//! subscriber states, and exposes a demand-driven, memoized compilation
//! pipeline over the document index that recomputes only what changed.

pub mod audit;
pub mod content;
pub mod error;
pub mod event;
pub mod history;
pub mod ids;
pub mod ir;
pub mod laws;
pub mod meta;
pub mod queries;
pub mod repository;
pub mod rules;
pub mod snapshot;
pub mod state;
pub mod ty;

use vstd::prelude::*;

use crate::audit::{audit, audit_allows};
use crate::event::{Event, EventEntry};
use crate::history::History;
use crate::queries::{doc_step, DocView, KernelQueries};
use crate::repository::Repository;
use crate::rules::AuditResponse;
use crate::snapshot::{snapshot_step, Snapshot, SnapshotView};
use crate::state::{states_step, StateBox, StateRegistry, StateTag, StateView};

verus! {

/// The kernel's observable state: the snapshot projection, the admitted
/// history, every registered subscriber, and the document index's input
/// layer.
pub ghost struct CoreView {
    pub snapshot: SnapshotView,
    pub history: Seq<Event>,
    pub states: Seq<StateView>,
    pub doc: DocView,
}

/// How one log entry changes the kernel: an admitted entry updates the
/// document index, the history, every subscriber — each observing the
/// snapshot as of before the entry — and finally the snapshot; a denied
/// entry changes nothing at all.
pub open spec fn apply_one(c: CoreView, entry: EventEntry) -> CoreView {
    if audit_allows(c.snapshot, entry) {
        CoreView {
            snapshot: snapshot_step(c.snapshot, entry.event),
            history: c.history.push(entry.event),
            states: states_step(c.states, c.snapshot, entry.event),
            doc: doc_step(c.doc, entry.event),
        }
    } else {
        c
    }
}

/// A whole polled batch, applied strictly in poll-return order.
pub open spec fn apply_entries(c: CoreView, s: Seq<EventEntry>) -> CoreView
    decreases s.len(),
{
    if s.len() == 0 {
        c
    } else {
        apply_one(apply_entries(c, s.drop_last()), s.last())
    }
}

/// The single authority over admission order. It owns the document index,
/// the snapshot, the history, the subscriber registry and the repository
/// handle; `process` is the only path by which any of them changes.
pub struct Kernel<R: Repository> {
    repository: R,
    pub hirs: KernelQueries,
    pub snapshot: Snapshot,
    history: History,
    states: StateRegistry,
}

impl<R: Repository> Kernel<R> {
    /// The repository handle's mathematical value.
    pub closed spec fn repo(&self) -> R {
        self.repository
    }

    /// The query engine's mathematical value.
    pub closed spec fn engine(&self) -> KernelQueries {
        self.hirs
    }

    /// The kernel's observable state.
    pub closed spec fn observable(&self) -> CoreView {
        CoreView {
            snapshot: self.snapshot@,
            history: self.history@,
            states: self.states@,
            doc: self.hirs.doc(),
        }
    }

    /// Validity of the kernel's parts.
    pub closed spec fn wf(&self) -> bool {
        &&& self.snapshot.wf()
        &&& self.states.wf()
        &&& self.hirs.wf()
    }

    /// A kernel over `repository`, with every other component empty.
    pub fn new(repository: R) -> (r: Kernel<R>)
        ensures
            r.wf(),
            r.repo() == repository,
            r.observable().snapshot.owners == Seq::<crate::ids::UserId>::empty(),
            r.observable().snapshot.rules == Map::<u64, crate::rules::Rules>::empty(),
            r.observable().snapshot.flat_nodes == Map::<u64, crate::snapshot::NodeSummary>::empty(),
            r.observable().history == Seq::<Event>::empty(),
            r.observable().states == Seq::<StateView>::empty(),
            r.observable().doc.data == Map::<u64, crate::queries::NodeRecord>::empty(),
            r.observable().doc.epochs == Map::<u64, u64>::empty(),
            r.observable().doc.rev == 1,
            r.engine().doc() == r.observable().doc,
            r.engine().memos() == (crate::queries::MemoView {
                build: Map::<u64, crate::queries::MemoEntry>::empty(),
                ast: Map::<u64, crate::queries::MemoEntry>::empty(),
                hir: Map::<u64, crate::queries::MemoEntry>::empty(),
                thir: Map::<u64, crate::queries::MemoEntry>::empty(),
                amir: Map::<u64, crate::queries::MemoEntry>::empty(),
                mir: Map::<u64, crate::queries::MemoEntry>::empty(),
                env: Map::<u64, crate::queries::MemoEntry>::empty(),
            }),
            r.engine().arena_view() == Seq::<crate::queries::IrValue>::empty(),
            r.engine().stamps() == 0,
    {
        Kernel {
            repository,
            hirs: KernelQueries::new(),
            snapshot: Snapshot::new(),
            history: History::new(),
            states: StateRegistry::new(),
        }
    }

    /// Forwards one event to the repository verbatim. Admission is enforced
    /// only at apply time, inside `process`, never at write time.
    pub fn commit(&mut self, event: Event)
        ensures
            final(self).observable() == old(self).observable(),
            final(self).engine() == old(self).engine(),
            old(self).wf() ==> final(self).wf(),
            final(self).repo().log().len() == old(self).repo().log().len() + 1,
            final(self).repo().log().drop_last() == old(self).repo().log(),
            final(self).repo().log().last().event == event,
            final(self).repo().pending() == old(self).repo().pending().push(
                final(self).repo().log().last(),
            ),
    {
        self.repository.commit(event);
    }

    /// Pulls every new log entry once and applies the batch in order: each
    /// entry is gated by the audit against the snapshot as it stands, and an
    /// admitted entry reaches the document index, the history, every
    /// registered subscriber, and finally the snapshot — exactly once each.
    /// A denied entry is skipped with no side effect at all. With nothing
    /// pending, the call changes nothing.
    pub fn process(&mut self)
        requires
            old(self).wf(),
        ensures
            final(self).wf(),
            final(self).observable() == apply_entries(old(self).observable(), old(self).repo().pending()),
            final(self).repo().pending() == Seq::<EventEntry>::empty(),
            final(self).repo().log() == old(self).repo().log(),
            final(self).engine().arena_view() == old(self).engine().arena_view(),
            old(self).engine().revision() + old(self).repo().pending().len() <= u64::MAX
                ==> final(self).engine().memos() == old(self).engine().memos(),
            final(self).engine().doc() == final(self).observable().doc,
    {
        let ghost c0 = self.observable();
        let ghost rev0 = self.hirs.revision();
        let entries = self.repository.poll();
        let ghost pend = entries@;
        let ghost repo_after = self.repository;
        let mut i: usize = 0;
        while i < entries.len()
            invariant
                i <= entries@.len(),
                pend == entries@,
                self.repository == repo_after,
                repo_after.pending() == Seq::<EventEntry>::empty(),
                self.snapshot.wf(),
                self.states.wf(),
                self.hirs.wf(),
                self.observable() == apply_entries(c0, entries@.take(i as int)),
                self.hirs.arena_view() == old(self).engine().arena_view(),
                self.hirs.revision() <= rev0 + i,
                rev0 + pend.len() <= u64::MAX ==> self.hirs.memos()
                    == old(self).engine().memos(),
            decreases entries@.len() - i,
        {
            let ghost cpre = self.observable();
            let entry = &entries[i];
            let verdict = audit(&self.snapshot, entry);
            if verdict == AuditResponse::Allowed {
                self.hirs.handle_event(&entry.event);
                self.history.handle_event(&self.snapshot, &entry.event);
                self.states.handle_event_all(&self.snapshot, &entry.event);
                self.snapshot.handle_event(&entry.event);
            }
            proof {
                let longer = entries@.take(i + 1);
                assert(longer.drop_last() =~= entries@.take(i as int));
                assert(longer.last() == entries@[i as int]);
                assert(self.observable() == apply_one(cpre, entries@[i as int]));
            }
            i += 1;
        }
        proof {
            assert(entries@.take(entries@.len() as int) =~= entries@);
        }
    }

    /// Registers a subscriber; a subscriber of the same tag is replaced, so
    /// at most one instance per kind ever exists.
    pub fn add_state(&mut self, state: StateBox)
        requires
            old(self).wf(),
        ensures
            final(self).wf(),
            final(self).repo() == old(self).repo(),
            final(self).engine() == old(self).engine(),
            final(self).observable().snapshot == old(self).observable().snapshot,
            final(self).observable().history == old(self).observable().history,
            final(self).observable().doc == old(self).observable().doc,
            final(self).observable().states.len() == if (exists|i: int|
                0 <= i < old(self).observable().states.len() && old(self).observable().states[i].tag()
                    == state@.tag()) {
                old(self).observable().states.len()
            } else {
                old(self).observable().states.len() + 1
            },
            forall|i: int|
                0 <= i < old(self).observable().states.len() && old(self).observable().states[i].tag()
                    != state@.tag() ==> final(self).observable().states[i]
                    == old(self).observable().states[i],
            exists|i: int|
                0 <= i < final(self).observable().states.len() && final(self).observable().states[i]
                    == state@ && (forall|j: int|
                    0 <= j < final(self).observable().states.len() && j != i
                        ==> final(self).observable().states[j].tag() != state@.tag()),
    {
        self.states.add_state(state);
    }

    /// The registered subscriber of `tag`, or an explicit absence — a
    /// lookup miss, never a fault.
    pub fn get_state(&self, tag: StateTag) -> (r: Option<&StateBox>)
        requires
            self.wf(),
        ensures
            match r {
                Some(s) => s.spec_tag() == tag && (exists|i: int|
                    0 <= i < self.observable().states.len() && self.observable().states[i] == s@),
                None => forall|i: int|
                    0 <= i < self.observable().states.len() ==> self.observable().states[i].tag() != tag,
            },
    {
        self.states.get_state(tag)
    }

    /// Mutable access to the registered subscriber of `tag`, or an explicit
    /// lookup miss — never a fault. The lookup itself neither adds, removes
    /// nor retypes a registry entry, and touches no other component: a miss
    /// changes nothing, and a hit hands out exactly the slot registered
    /// under `tag`, so the registry afterwards differs from before only by
    /// what the caller wrote through the handle.
    pub fn get_state_mut(&mut self, tag: StateTag) -> (r: Option<&mut StateBox>)
        ensures
            r is Some <==> (exists|i: int|
                0 <= i < old(self).observable().states.len()
                    && old(self).observable().states[i].tag() == tag),
            r is None ==> {
                &&& final(self).observable() == old(self).observable()
                &&& final(self).repo() == old(self).repo()
                &&& final(self).engine() == old(self).engine()
                &&& (old(self).wf() ==> final(self).wf())
            },
            r matches Some(s) ==> {
                &&& (*s).spec_tag() == tag
                &&& final(self).repo() == old(self).repo()
                &&& final(self).engine() == old(self).engine()
                &&& final(self).observable().snapshot == old(self).observable().snapshot
                &&& final(self).observable().history == old(self).observable().history
                &&& final(self).observable().doc == old(self).observable().doc
                &&& exists|i: int|
                    0 <= i < old(self).observable().states.len() && old(
                        self,
                    ).observable().states[i].tag() == tag && (*s)@ == old(
                        self,
                    ).observable().states[i] && final(self).observable().states == old(
                        self,
                    ).observable().states.update(i, final(s)@)
            },
    {
        self.states.get_state_mut(tag)
    }

    /// The history ledger, for replay and inspection.
    pub fn history(&self) -> (r: &History)
        ensures
            r@ == self.observable().history,
    {
        &self.history
    }
}

/// The query engine's input layer and the kernel's observable document
/// view are one and the same store, in every kernel state: composing
/// `process` with a derived query needs no further glue.
pub proof fn lemma_engine_doc_is_observable<R: Repository>(k: &Kernel<R>)
    ensures
        k.engine().doc() == k.observable().doc,
{
}

} // verus!

