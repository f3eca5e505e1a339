use vstd::prelude::*;
use std::collections::HashMap;
use crate::event::{Event, FilePatch};
use crate::ids::{FileId, NodeId, UserId};
use crate::rules::Rules;

verus! {

broadcast use vstd::std_specs::hash::group_hash_axioms;

/// What the snapshot remembers of one node: the file that owns it.
#[derive(Clone, Copy, Debug, PartialEq, Eq, Structural)]
pub struct NodeSummary {
    pub file_id: FileId,
}

/// The mathematical value of a snapshot.
pub ghost struct SnapshotView {
    pub owners: Seq<UserId>,
    pub rules: Map<u64, Rules>,
    pub flat_nodes: Map<u64, NodeSummary>,
}

/// The materialized projection of all admitted events: the owner set, each
/// file's rules, and a flat node table. Mutated only by admitted events,
/// after every other subscriber.
pub struct Snapshot {
    pub owners: Vec<UserId>,
    pub rules: HashMap<u64, Rules>,
    pub flat_nodes: HashMap<u64, NodeSummary>,
}

impl View for Snapshot {
    type V = SnapshotView;

    open spec fn view(&self) -> SnapshotView {
        SnapshotView {
            owners: self.owners@,
            rules: self.rules@,
            flat_nodes: self.flat_nodes@,
        }
    }
}

/// How one admitted event changes a snapshot value.
pub open spec fn snapshot_step(s: SnapshotView, e: Event) -> SnapshotView {
    match e {
        Event::AddOwner { user_id } => if s.owners.contains(user_id) {
            s
        } else {
            SnapshotView { owners: s.owners.push(user_id), ..s }
        },
        Event::RemoveOwner { user_id } => SnapshotView {
            owners: remove_first(s.owners, user_id),
            ..s
        },
        Event::AddFile(file_id) => SnapshotView {
            rules: s.rules.insert(file_id.0, Rules { default: crate::rules::OpList::Nil, users: crate::rules::UserRules::Nil }),
            ..s
        },
        Event::PatchFile { file_id, patch } => match patch {
            FilePatch::UpdateRules { rules } => SnapshotView {
                rules: s.rules.insert(file_id.0, rules),
                ..s
            },
        },
        Event::AddNode { node_id, file_id, .. } => SnapshotView {
            flat_nodes: s.flat_nodes.insert(node_id.0, NodeSummary { file_id }),
            ..s
        },
        Event::RemoveNode { node_id } => SnapshotView {
            flat_nodes: s.flat_nodes.remove(node_id.0),
            ..s
        },
        _ => s,
    }
}

/// The sequence with the first occurrence of `u` removed.
pub open spec fn remove_first(s: Seq<UserId>, u: UserId) -> Seq<UserId>
    decreases s.len(),
{
    if s.len() == 0 {
        s
    } else if s[0] == u {
        s.drop_first()
    } else {
        seq![s[0]] + remove_first(s.drop_first(), u)
    }
}

impl Snapshot {
    /// An empty snapshot, as the kernel starts with.
    pub fn new() -> (r: Snapshot)
        ensures
            r@.owners == Seq::<UserId>::empty(),
            r@.rules == Map::<u64, Rules>::empty(),
            r@.flat_nodes == Map::<u64, NodeSummary>::empty(),
            r.wf(),
    {
        Snapshot { owners: Vec::new(), rules: HashMap::new(), flat_nodes: HashMap::new() }
    }

    /// The owner list never repeats a user: it is a set.
    pub open spec fn wf(&self) -> bool {
        forall|i: int, j: int|
            0 <= i < j < self.owners@.len() ==> self.owners@[i] != self.owners@[j]
    }

    /// Whether `u` is currently an owner.
    pub fn is_owner(&self, u: UserId) -> (r: bool)
        ensures
            r == self@.owners.contains(u),
    {
        let mut i: usize = 0;
        while i < self.owners.len()
            invariant
                i <= self.owners@.len(),
                forall|j: int| 0 <= j < i ==> self.owners@[j] != u,
            decreases self.owners@.len() - i,
        {
            if self.owners[i] == u {
                assert(self@.owners[i as int] == u);
                return true;
            }
            i += 1;
        }
        false
    }

    /// The rules of `file_id`, if any were set.
    pub fn rules_of(&self, file_id: FileId) -> (r: Option<&Rules>)
        ensures
            match r {
                Some(rules) => self@.rules.contains_key(file_id.0) && self@.rules[file_id.0]
                    == *rules,
                None => !self@.rules.contains_key(file_id.0),
            },
    {
        self.rules.get(&file_id.0)
    }

    /// The summary of `node_id`, if the node exists and was not removed.
    pub fn node_summary(&self, node_id: NodeId) -> (r: Option<&NodeSummary>)
        ensures
            match r {
                Some(s) => self@.flat_nodes.contains_key(node_id.0) && self@.flat_nodes[node_id.0]
                    == *s,
                None => !self@.flat_nodes.contains_key(node_id.0),
            },
    {
        self.flat_nodes.get(&node_id.0)
    }

    /// Applies one admitted event to the projection.
    pub fn handle_event(&mut self, event: &Event)
        requires
            old(self).wf(),
        ensures
            final(self)@ == snapshot_step(old(self)@, *event),
            final(self).wf(),
    {
        match event {
            Event::AddOwner { user_id } => {
                if !self.is_owner(*user_id) {
                    self.owners.push(*user_id);
                }
            },
            Event::RemoveOwner { user_id } => {
                let ghost old_owners = self.owners@;
                match find_first(&self.owners, *user_id) {
                    Some(i) => {
                        self.owners.remove(i);
                        proof {
                            lemma_remove_first_at(old_owners, *user_id, i as int);
                        }
                    },
                    None => {
                        proof {
                            lemma_remove_first_absent(old_owners, *user_id);
                        }
                    },
                }
            },
            Event::AddFile(file_id) => {
                self.rules.insert(file_id.0, Rules::empty());
            },
            Event::PatchFile { file_id, patch } => match patch {
                FilePatch::UpdateRules { rules } => {
                    self.rules.insert(file_id.0, rules.clone());
                },
            },
            Event::AddNode { node_id, file_id, .. } => {
                self.flat_nodes.insert(node_id.0, NodeSummary { file_id: *file_id });
            },
            Event::RemoveNode { node_id } => {
                self.flat_nodes.remove(&node_id.0);
            },
            _ => {},
        }
    }
}

/// The position of the first occurrence of `u` in `v`.
fn find_first(v: &Vec<UserId>, u: UserId) -> (r: Option<usize>)
    ensures
        match r {
            Some(i) => i < v@.len() && v@[i as int] == u && (forall|j: int|
                0 <= j < i ==> v@[j] != u),
            None => forall|j: int| 0 <= j < v@.len() ==> v@[j] != u,
        },
{
    let mut i: usize = 0;
    while i < v.len()
        invariant
            i <= v@.len(),
            forall|j: int| 0 <= j < i ==> v@[j] != u,
        decreases v@.len() - i,
    {
        if v[i] == u {
            return Some(i);
        }
        i += 1;
    }
    None
}

/// Removing the first occurrence, found at `i`, is the same as deleting
/// position `i`.
proof fn lemma_remove_first_at(s: Seq<UserId>, u: UserId, i: int)
    requires
        0 <= i < s.len(),
        s[i] == u,
        forall|j: int| 0 <= j < i ==> s[j] != u,
    ensures
        remove_first(s, u) == s.remove(i),
    decreases i,
{
    if i == 0 {
        assert(remove_first(s, u) == s.drop_first());
        assert(s.remove(0) =~= s.drop_first());
    } else {
        lemma_remove_first_at(s.drop_first(), u, i - 1);
        assert(remove_first(s, u) == seq![s[0]] + remove_first(s.drop_first(), u));
        assert(s.remove(i) =~= seq![s[0]] + s.drop_first().remove(i - 1));
    }
}

/// Removing an absent user changes nothing.
proof fn lemma_remove_first_absent(s: Seq<UserId>, u: UserId)
    requires
        forall|j: int| 0 <= j < s.len() ==> s[j] != u,
    ensures
        remove_first(s, u) == s,
    decreases s.len(),
{
    if s.len() > 0 {
        lemma_remove_first_absent(s.drop_first(), u);
        assert(remove_first(s, u) =~= seq![s[0]] + s.drop_first());
        assert(seq![s[0]] + s.drop_first() =~= s);
    }
}

} // verus!
