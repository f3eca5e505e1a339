use vstd::prelude::*;

verus! {

/// A collaborating user, identified by a stable numeric id.
#[derive(Clone, Copy, Debug, PartialEq, Eq, Structural)]
pub struct UserId(pub u64);

/// A file: the unit of ownership rules and the container of nodes.
#[derive(Clone, Copy, Debug, PartialEq, Eq, Structural)]
pub struct FileId(pub u64);

/// A program node, stable for the node's lifetime.
#[derive(Clone, Copy, Debug, PartialEq, Eq, Structural)]
pub struct NodeId(pub u64);

/// An ordered list of child node ids, as stored in the document index.
/// Order is significant.
#[derive(Debug, PartialEq, Eq)]
pub enum IdList {
    Nil,
    Cons(NodeId, Box<IdList>),
}

impl Clone for IdList {
    fn clone(&self) -> (r: Self)
        ensures
            r == *self,
        decreases *self,
    {
        match self {
            IdList::Nil => IdList::Nil,
            IdList::Cons(h, t) => IdList::Cons(*h, Box::new((**t).clone())),
        }
    }
}

impl IdList {
    /// Number of ids in the list.
    pub open spec fn len(&self) -> nat
        decreases *self,
    {
        match *self {
            IdList::Nil => 0,
            IdList::Cons(_, t) => 1 + t.len(),
        }
    }

    /// The id at `i`, if the list is that long.
    pub open spec fn spec_get(&self, i: nat) -> Option<NodeId>
        decreases *self,
    {
        match *self {
            IdList::Nil => None,
            IdList::Cons(h, t) => if i == 0 {
                Some(h)
            } else {
                t.spec_get((i - 1) as nat)
            },
        }
    }

    /// Insertion at `i`; an index past the end appends.
    pub open spec fn spec_insert(self, i: nat, n: NodeId) -> IdList
        decreases self,
    {
        if i == 0 {
            IdList::Cons(n, Box::new(self))
        } else {
            match self {
                IdList::Nil => IdList::Cons(n, Box::new(IdList::Nil)),
                IdList::Cons(h, t) => IdList::Cons(h, Box::new(t.spec_insert((i - 1) as nat, n))),
            }
        }
    }

    /// Removal of the id at `i`; an index past the end changes nothing.
    pub open spec fn spec_remove(self, i: nat) -> IdList
        decreases self,
    {
        match self {
            IdList::Nil => IdList::Nil,
            IdList::Cons(h, t) => if i == 0 {
                *t
            } else {
                IdList::Cons(h, Box::new(t.spec_remove((i - 1) as nat)))
            },
        }
    }

    /// Moving the id at `from` so that it ends up at position `to` of the
    /// remaining list; a `from` past the end changes nothing.
    pub open spec fn spec_move(self, from: nat, to: nat) -> IdList {
        match self.spec_get(from) {
            None => self,
            Some(n) => self.spec_remove(from).spec_insert(to, n),
        }
    }

    /// Executable insertion, mirroring `spec_insert`.
    pub fn insert_at(&self, i: usize, n: NodeId) -> (r: IdList)
        ensures
            r == self.spec_insert(i as nat, n),
        decreases *self,
    {
        if i == 0 {
            IdList::Cons(n, Box::new(self.clone()))
        } else {
            match self {
                IdList::Nil => IdList::Cons(n, Box::new(IdList::Nil)),
                IdList::Cons(h, t) => IdList::Cons(*h, Box::new(t.insert_at(i - 1, n))),
            }
        }
    }

    /// Executable removal, mirroring `spec_remove`.
    pub fn remove_at(&self, i: usize) -> (r: IdList)
        ensures
            r == self.spec_remove(i as nat),
        decreases *self,
    {
        match self {
            IdList::Nil => IdList::Nil,
            IdList::Cons(h, t) => if i == 0 {
                (**t).clone()
            } else {
                IdList::Cons(*h, Box::new(t.remove_at(i - 1)))
            },
        }
    }

    /// Executable lookup, mirroring `spec_get`.
    pub fn get_at(&self, i: usize) -> (r: Option<NodeId>)
        ensures
            r == self.spec_get(i as nat),
        decreases *self,
    {
        match self {
            IdList::Nil => None,
            IdList::Cons(h, t) => if i == 0 {
                Some(*h)
            } else {
                t.get_at(i - 1)
            },
        }
    }

    /// Executable move, mirroring `spec_move`.
    pub fn move_to(&self, from: usize, to: usize) -> (r: IdList)
        ensures
            r == self.spec_move(from as nat, to as nat),
    {
        match self.get_at(from) {
            None => self.clone(),
            Some(n) => self.remove_at(from).insert_at(to, n),
        }
    }
}

} // verus!
