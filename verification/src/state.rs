use vstd::prelude::*;
use crate::event::Event;
use crate::snapshot::Snapshot;

verus! {

/// The tag identifying one subscriber kind; at most one subscriber per tag
/// is registered.
#[derive(Clone, Copy, Debug, PartialEq, Eq, Structural)]
pub enum StateTag {
    EventLog,
    OwnershipLog,
}

/// A subscriber that records every admitted event, in admission order.
pub struct EventLogState {
    pub received: Vec<Event>,
}

/// A subscriber that records, for every admitted event, how many owners the
/// snapshot held immediately before that event.
pub struct OwnershipLogState {
    pub owners_before: Vec<u64>,
}

/// One registered subscriber. The set of subscriber kinds is closed, so a
/// lookup is a checked match on the tag, never an unchecked downcast.
pub enum StateBox {
    EventLog(EventLogState),
    OwnershipLog(OwnershipLogState),
}

/// The mathematical value of a subscriber.
pub ghost enum StateView {
    EventLog(Seq<Event>),
    OwnershipLog(Seq<u64>),
}

impl View for StateBox {
    type V = StateView;

    open spec fn view(&self) -> StateView {
        match *self {
            StateBox::EventLog(s) => StateView::EventLog(s.received@),
            StateBox::OwnershipLog(s) => StateView::OwnershipLog(s.owners_before@),
        }
    }
}

/// How one admitted event, observed against the snapshot as of immediately
/// before it, changes a subscriber.
pub open spec fn state_step(
    s: StateView,
    snapshot: crate::snapshot::SnapshotView,
    e: Event,
) -> StateView {
    match s {
        StateView::EventLog(received) => StateView::EventLog(received.push(e)),
        StateView::OwnershipLog(counts) => StateView::OwnershipLog(
            counts.push(snapshot.owners.len() as u64),
        ),
    }
}

impl StateBox {
    /// The tag of this subscriber.
    pub open spec fn spec_tag(&self) -> StateTag {
        match *self {
            StateBox::EventLog(_) => StateTag::EventLog,
            StateBox::OwnershipLog(_) => StateTag::OwnershipLog,
        }
    }

    /// Executable tag, mirroring `spec_tag`.
    pub fn tag(&self) -> (r: StateTag)
        ensures
            r == self.spec_tag(),
    {
        match self {
            StateBox::EventLog(_) => StateTag::EventLog,
            StateBox::OwnershipLog(_) => StateTag::OwnershipLog,
        }
    }

    /// Delivers one admitted event, together with the snapshot as of
    /// immediately before it. Subscribers must not mutate the snapshot, the
    /// history or the document index; a resulting change is expressed as a
    /// new event committed through the kernel.
    pub fn handle_event(&mut self, snapshot: &Snapshot, event: &Event)
        ensures
            final(self)@ == state_step(old(self)@, snapshot@, *event),
    {
        match self {
            StateBox::EventLog(s) => {
                s.received.push(event.clone());
            },
            StateBox::OwnershipLog(s) => {
                s.owners_before.push(snapshot.owners.len() as u64);
            },
        }
    }
}

impl StateView {
    /// How many events this subscriber has received.
    pub open spec fn len(&self) -> nat {
        match *self {
            StateView::EventLog(received) => received.len(),
            StateView::OwnershipLog(counts) => counts.len(),
        }
    }

    /// The tag of the subscriber value.
    pub open spec fn tag(&self) -> StateTag {
        match *self {
            StateView::EventLog(_) => StateTag::EventLog,
            StateView::OwnershipLog(_) => StateTag::OwnershipLog,
        }
    }
}

/// The open set of registered subscribers: at most one per tag, each
/// consuming the same in-order admitted-event stream.
pub struct StateRegistry {
    states: Vec<StateBox>,
}

impl View for StateRegistry {
    type V = Seq<StateView>;

    closed spec fn view(&self) -> Seq<StateView> {
        Seq::new(self.states@.len(), |i: int| self.states@[i]@)
    }
}

/// How one admitted event changes every registered subscriber at once.
pub open spec fn states_step(
    v: Seq<StateView>,
    snapshot: crate::snapshot::SnapshotView,
    e: Event,
) -> Seq<StateView> {
    Seq::new(v.len(), |i: int| state_step(v[i], snapshot, e))
}

impl StateRegistry {
    /// An empty registry.
    pub fn new() -> (r: StateRegistry)
        ensures
            r@ == Seq::<StateView>::empty(),
            r.wf(),
    {
        let r = StateRegistry { states: Vec::new() };
        proof {
            assert(r@ =~= Seq::<StateView>::empty());
        }
        r
    }

    /// No two registered subscribers share a tag.
    pub open spec fn wf(&self) -> bool {
        forall|i: int, j: int|
            0 <= i < j < self@.len() ==> self@[i].tag() != self@[j].tag()
    }

    /// Whether a subscriber with `tag` is registered.
    pub open spec fn spec_has(&self, tag: StateTag) -> bool {
        exists|i: int| 0 <= i < self@.len() && self@[i].tag() == tag
    }

    /// Registers a subscriber. A subscriber of the same tag that was already
    /// registered is replaced; at most one instance per tag ever exists.
    pub fn add_state(&mut self, state: StateBox)
        requires
            old(self).wf(),
        ensures
            final(self).wf(),
            final(self).spec_has(state@.tag()),
            // every other subscriber is untouched, and `state` now stands at
            // exactly one position
            final(self)@.len() == if old(self).spec_has(state@.tag()) {
                old(self)@.len()
            } else {
                old(self)@.len() + 1
            },
            forall|i: int| 0 <= i < old(self)@.len() && old(self)@[i].tag() != state@.tag()
                ==> final(self)@[i] == old(self)@[i],
            exists|i: int| 0 <= i < final(self)@.len() && final(self)@[i] == state@ && (forall|
                j: int,
            | 0 <= j < final(self)@.len() && j != i ==> final(self)@[j].tag() != state@.tag()),
    {
        let ghost pre = self@;
        let tag = state.tag();
        let mut i: usize = 0;
        while i < self.states.len()
            invariant
                i <= self.states@.len(),
                pre == old(self)@,
                self@ == pre,
                self.states@.len() == pre.len(),
                tag == state@.tag(),
                forall|a: int, b: int|
                    0 <= a < b < pre.len() ==> pre[a].tag() != pre[b].tag(),
                forall|j: int| 0 <= j < i ==> pre[j].tag() != tag,
            decreases self.states@.len() - i,
        {
            let found: bool = self.states[i].tag() == tag;
            if found {
                proof {
                    assert(self@[i as int] == self.states@[i as int]@);
                    assert(pre[i as int].tag() == tag);
                    // a second subscriber with this tag cannot stand anywhere
                    // else: tags are pairwise distinct
                    assert forall|j: int|
                        0 <= j < pre.len() && j != i as int implies #[trigger] pre[j].tag()
                        != tag by {
                        if j < i as int {
                            assert(pre[j].tag() != pre[i as int].tag());
                        } else {
                            assert(pre[i as int].tag() != pre[j].tag());
                        }
                    }
                }
                self.states.set(i, state);
                proof {
                    assert(self@ =~= pre.update(i as int, state@));
                    assert(self@[i as int] == state@);
                    assert(self.spec_has(state@.tag()));
                }
                return ;
            }
            i += 1;
        }
        self.states.push(state);
        proof {
            assert(self@ =~= pre.push(state@));
            assert(self@[pre.len() as int] == state@);
            assert(self.spec_has(state@.tag()));
        }
    }

    /// The registered subscriber with `tag`, or an explicit absence — never
    /// a fault.
    pub fn get_state(&self, tag: StateTag) -> (r: Option<&StateBox>)
        requires
            self.wf(),
        ensures
            match r {
                Some(s) => s.spec_tag() == tag && (exists|i: int|
                    0 <= i < self@.len() && self@[i] == s@),
                None => !self.spec_has(tag),
            },
    {
        let mut i: usize = 0;
        while i < self.states.len()
            invariant
                i <= self.states@.len(),
                forall|j: int| 0 <= j < i ==> self@[j].tag() != tag,
            decreases self.states@.len() - i,
        {
            if self.states[i].tag() == tag {
                let r = &self.states[i];
                proof {
                    assert(self@[i as int] == r@);
                }
                return Some(r);
            }
            i += 1;
        }
        None
    }


    /// Mutable access to the registered subscriber with `tag`, or an
    /// explicit absence — never a fault. The lookup itself neither adds nor
    /// removes an entry: a miss leaves the registry untouched, and a hit
    /// hands out exactly the slot registered under `tag`, so the registry
    /// afterwards differs from before only by what the caller wrote through
    /// the handle. A caller that keeps the subscriber's kind keeps the
    /// registry's one-per-tag shape.
    pub fn get_state_mut(&mut self, tag: StateTag) -> (r: Option<&mut StateBox>)
        ensures
            r is Some <==> old(self).spec_has(tag),
            r is None ==> final(self)@ == old(self)@,
            r matches Some(s) ==> {
                &&& (*s).spec_tag() == tag
                &&& exists|i: int|
                    0 <= i < old(self)@.len() && old(self)@[i].tag() == tag && (*s)@ == old(
                        self,
                    )@[i] && final(self)@ == old(self)@.update(i, final(s)@)
            },
    {
        let n = self.states.len();
        let mut i: usize = 0;
        while i < n
            invariant
                n == self.states@.len(),
                i <= n,
                self@ == old(self)@,
                forall|j: int| 0 <= j < i ==> self@[j].tag() != tag,
            decreases n - i,
        {
            if self.states[i].tag() == tag {
                proof {
                    assert(self@[i as int] == self.states@[i as int]@);
                }
                return Some(&mut self.states[i]);
            }
            i += 1;
        }
        None
    }

    /// Delivers one admitted event to every registered subscriber, in
    /// registration order, each observing the snapshot as of immediately
    /// before the event.
    pub fn handle_event_all(&mut self, snapshot: &Snapshot, event: &Event)
        requires
            old(self).wf(),
        ensures
            final(self).wf(),
            final(self)@ == states_step(old(self)@, snapshot@, *event),
    {
        let ghost pre = self@;
        let ghost pre0 = self.states@;
        let mut i: usize = 0;
        while i < self.states.len()
            invariant
                i <= self.states@.len(),
                pre == old(self)@,
                pre0.len() == pre.len(),
                forall|j: int| 0 <= j < pre.len() ==> pre[j] == (#[trigger] pre0[j])@,
                self.states@.len() == pre.len(),
                forall|j: int|
                    0 <= j < i ==> (#[trigger] self.states@[j])@ == state_step(
                        pre[j],
                        snapshot@,
                        *event,
                    ),
                forall|j: int| i <= j < pre.len() ==> self.states@[j] == pre0[j],
            decreases self.states@.len() - i,
        {
            let ghost before = self.states@;
            proof {
                assert(self.states@[i as int] == pre0[i as int]);
                assert(pre0[i as int]@ == pre[i as int]);
            }
            let sb = &mut self.states[i];
            sb.handle_event(snapshot, event);
            proof {
                assert(self.states@ == before.update(i as int, self.states@[i as int]));
                assert(self.states@[i as int]@ == state_step(pre[i as int], snapshot@, *event));
            }
            i += 1;
        }
        proof {
            let stepped = states_step(pre, snapshot@, *event);
            assert forall|j: int| 0 <= j < self@.len() implies self@[j] == stepped[j] by {
                assert(self@[j] == self.states@[j]@);
            }
            assert(self@.len() == stepped.len());
            assert(self@ =~= stepped);
            assert forall|a: int, b: int|
                0 <= a < b < self@.len() implies self@[a].tag() != self@[b].tag() by {
                assert(pre[a].tag() != pre[b].tag());
                assert(self@[a] == stepped[a]);
                assert(self@[b] == stepped[b]);
            }
        }
    }
}

} // verus!
