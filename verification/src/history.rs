use vstd::prelude::*;
use crate::event::Event;
use crate::ids::NodeId;
use crate::snapshot::Snapshot;

verus! {

/// The admitted events that concern `node`, in admission order.
pub open spec fn node_events(s: Seq<Event>, node: NodeId) -> Seq<Event>
    decreases s.len(),
{
    if s.len() == 0 {
        s
    } else {
        let rest = node_events(s.drop_last(), node);
        if s.last().written_node() == Some(node) {
            rest.push(s.last())
        } else {
            rest
        }
    }
}

/// The append-only ledger of admitted events, in admission order. It records
/// every admitted event without filtering — filtering already happened at
/// the audit — and survives for the kernel's lifetime, so a node's value at
/// any historical point can be reconstructed by replay.
pub struct History {
    entries: Vec<Event>,
}

impl View for History {
    type V = Seq<Event>;

    closed spec fn view(&self) -> Seq<Event> {
        self.entries@
    }
}

impl History {
    /// An empty ledger.
    pub fn new() -> (r: History)
        ensures
            r@ == Seq::<Event>::empty(),
    {
        History { entries: Vec::new() }
    }

    /// Appends one admitted event. The snapshot passed alongside is the
    /// projection as of immediately before the event.
    pub fn handle_event(&mut self, _snapshot: &Snapshot, event: &Event)
        ensures
            final(self)@ == old(self)@.push(*event),
    {
        self.entries.push(event.clone());
    }

    /// How many admitted events the ledger holds.
    pub fn len(&self) -> (r: usize)
        ensures
            r == self@.len(),
    {
        self.entries.len()
    }

    /// The `i`-th admitted event.
    pub fn get(&self, i: usize) -> (r: Option<&Event>)
        ensures
            match r {
                Some(e) => i < self@.len() && *e == self@[i as int],
                None => i >= self@.len(),
            },
    {
        if i < self.entries.len() {
            Some(&self.entries[i])
        } else {
            None
        }
    }

    /// The per-node ledger: every admitted event that wrote `node`, in
    /// admission order.
    pub fn events_for(&self, node: NodeId) -> (r: Vec<Event>)
        ensures
            r@ == node_events(self@, node),
    {
        let mut out: Vec<Event> = Vec::new();
        let mut i: usize = 0;
        while i < self.entries.len()
            invariant
                i <= self.entries@.len(),
                out@ == node_events(self.entries@.take(i as int), node),
            decreases self.entries@.len() - i,
        {
            let ghost prefix = self.entries@.take(i as int);
            let e = &self.entries[i];
            let touches: bool = match e {
                Event::AddNode { node_id, .. } => node_id.0 == node.0,
                Event::RemoveNode { node_id } => node_id.0 == node.0,
                Event::PatchContent { node_id, .. } => node_id.0 == node.0,
                Event::PatchChildren { node_id, .. } => node_id.0 == node.0,
                Event::PatchAttribute { node_id, .. } => node_id.0 == node.0,
                _ => false,
            };
            proof {
                let longer = self.entries@.take(i + 1);
                assert(longer.drop_last() =~= prefix);
                assert(longer.last() == self.entries@[i as int]);
                assert(touches == (self.entries@[i as int].written_node() == Some(node)));
            }
            if touches {
                out.push(e.clone());
            }
            i += 1;
        }
        proof {
            assert(self.entries@.take(self.entries@.len() as int) =~= self.entries@);
        }
        out
    }
}

} // verus!
