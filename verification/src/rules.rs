use vstd::prelude::*;
use crate::ids::UserId;

verus! {

/// The operations a file's rules can grant on its nodes.
#[derive(Clone, Copy, Debug, PartialEq, Eq, Structural)]
pub enum NodeOperation {
    AddNode,
    RemoveNode,
    PatchContentReplace,
    PatchChildrenInsert,
    PatchChildrenRemove,
    PatchChildrenMove,
    PatchAttributeUpdate,
    PatchAttributeRemove,
}

/// A set of granted operations, kept as a list; membership is what matters.
#[derive(Debug, PartialEq, Eq)]
pub enum OpList {
    Nil,
    Cons(NodeOperation, Box<OpList>),
}

/// Per-user rule overrides: a user present here is governed by their own
/// operation set instead of the file's default.
#[derive(Debug, PartialEq, Eq)]
pub enum UserRules {
    Nil,
    Cons(UserId, OpList, Box<UserRules>),
}

/// A file's policy: the default operation set, and per-user overrides that
/// take precedence over it.
#[derive(Debug, PartialEq, Eq)]
pub struct Rules {
    pub default: OpList,
    pub users: UserRules,
}

/// The audit's verdict on one event entry.
#[derive(Clone, Copy, Debug, PartialEq, Eq, Structural)]
pub enum AuditResponse {
    Allowed,
    Denied,
}

impl OpList {
    /// Membership of an operation in the set.
    pub open spec fn spec_contains(&self, op: NodeOperation) -> bool
        decreases *self,
    {
        match *self {
            OpList::Nil => false,
            OpList::Cons(h, t) => h == op || t.spec_contains(op),
        }
    }

    /// Executable membership test, mirroring `spec_contains`.
    pub fn contains(&self, op: NodeOperation) -> (r: bool)
        ensures
            r == self.spec_contains(op),
        decreases *self,
    {
        match self {
            OpList::Nil => false,
            OpList::Cons(h, t) => *h == op || t.contains(op),
        }
    }
}

impl UserRules {
    /// The override for `user`, if one is present.
    pub open spec fn spec_get(&self, user: UserId) -> Option<OpList>
        decreases *self,
    {
        match *self {
            UserRules::Nil => None,
            UserRules::Cons(u, ops, t) => if u == user {
                Some(ops)
            } else {
                t.spec_get(user)
            },
        }
    }

    /// Executable override lookup, mirroring `spec_get`.
    pub fn get(&self, user: UserId) -> (r: Option<&OpList>)
        ensures
            match r {
                Some(ops) => self.spec_get(user) == Some(*ops),
                None => self.spec_get(user) is None,
            },
        decreases *self,
    {
        match self {
            UserRules::Nil => None,
            UserRules::Cons(u, ops, t) => if *u == user {
                Some(ops)
            } else {
                t.get(user)
            },
        }
    }
}

impl Rules {
    /// Whether these rules grant `op` to `user`: the user's override decides
    /// if present, the default set otherwise.
    pub open spec fn spec_grants(&self, user: UserId, op: NodeOperation) -> bool {
        match self.users.spec_get(user) {
            Some(ops) => ops.spec_contains(op),
            None => self.default.spec_contains(op),
        }
    }

    /// Executable grant test, mirroring `spec_grants`.
    pub fn grants(&self, user: UserId, op: NodeOperation) -> (r: bool)
        ensures
            r == self.spec_grants(user, op),
    {
        match self.users.get(user) {
            Some(ops) => ops.contains(op),
            None => self.default.contains(op),
        }
    }

    /// Rules that grant nothing to anyone.
    pub fn empty() -> (r: Rules)
        ensures
            r == (Rules { default: OpList::Nil, users: UserRules::Nil }),
    {
        Rules { default: OpList::Nil, users: UserRules::Nil }
    }
}

impl Clone for OpList {
    fn clone(&self) -> (r: Self)
        ensures
            r == *self,
        decreases *self,
    {
        match self {
            OpList::Nil => OpList::Nil,
            OpList::Cons(h, t) => OpList::Cons(*h, Box::new((**t).clone())),
        }
    }
}

impl Clone for UserRules {
    fn clone(&self) -> (r: Self)
        ensures
            r == *self,
        decreases *self,
    {
        match self {
            UserRules::Nil => UserRules::Nil,
            UserRules::Cons(u, ops, t) => UserRules::Cons(*u, ops.clone(), Box::new((**t).clone())),
        }
    }
}

impl Clone for Rules {
    fn clone(&self) -> (r: Self)
        ensures
            r == *self,
    {
        Rules { default: self.default.clone(), users: self.users.clone() }
    }
}

} // verus!
