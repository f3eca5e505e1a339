use vstd::prelude::*;
use crate::content::Content;
use crate::ids::{FileId, NodeId, UserId};
use crate::rules::{NodeOperation, Rules};

verus! {

/// A node's attributes: an association list from attribute key to value.
#[derive(Debug, PartialEq, Eq)]
pub enum AttrList {
    Nil,
    Cons(u64, String, Box<AttrList>),
}

impl AttrList {
    /// The attributes with `key` bound to `value`, replacing any earlier
    /// binding of `key`.
    pub open spec fn spec_update(self, key: u64, value: String) -> AttrList
        decreases self,
    {
        match self {
            AttrList::Nil => AttrList::Cons(key, value, Box::new(AttrList::Nil)),
            AttrList::Cons(k, v, t) => if k == key {
                AttrList::Cons(key, value, t)
            } else {
                AttrList::Cons(k, v, Box::new(t.spec_update(key, value)))
            },
        }
    }

    /// The attributes without any binding of `key`.
    pub open spec fn spec_remove(self, key: u64) -> AttrList
        decreases self,
    {
        match self {
            AttrList::Nil => AttrList::Nil,
            AttrList::Cons(k, v, t) => if k == key {
                t.spec_remove(key)
            } else {
                AttrList::Cons(k, v, Box::new(t.spec_remove(key)))
            },
        }
    }

    /// The value bound to `key`, if any.
    pub open spec fn spec_get(&self, key: u64) -> Option<String>
        decreases *self,
    {
        match *self {
            AttrList::Nil => None,
            AttrList::Cons(k, v, t) => if k == key {
                Some(v)
            } else {
                t.spec_get(key)
            },
        }
    }

    /// Executable update, mirroring `spec_update`.
    pub fn update(&self, key: u64, value: &String) -> (r: AttrList)
        ensures
            r == self.spec_update(key, *value),
        decreases *self,
    {
        match self {
            AttrList::Nil => AttrList::Cons(key, value.clone(), Box::new(AttrList::Nil)),
            AttrList::Cons(k, v, t) => if *k == key {
                AttrList::Cons(key, value.clone(), Box::new((**t).clone()))
            } else {
                AttrList::Cons(*k, v.clone(), Box::new(t.update(key, value)))
            },
        }
    }

    /// Executable removal, mirroring `spec_remove`.
    pub fn remove(&self, key: u64) -> (r: AttrList)
        ensures
            r == self.spec_remove(key),
        decreases *self,
    {
        match self {
            AttrList::Nil => AttrList::Nil,
            AttrList::Cons(k, v, t) => if *k == key {
                t.remove(key)
            } else {
                AttrList::Cons(*k, v.clone(), Box::new(t.remove(key)))
            },
        }
    }

    /// Executable lookup, mirroring `spec_get`.
    pub fn get(&self, key: u64) -> (r: Option<&String>)
        ensures
            match r {
                Some(v) => self.spec_get(key) == Some(*v),
                None => self.spec_get(key) is None,
            },
        decreases *self,
    {
        match self {
            AttrList::Nil => None,
            AttrList::Cons(k, v, t) => if *k == key {
                Some(v)
            } else {
                t.get(key)
            },
        }
    }
}

impl Clone for AttrList {
    fn clone(&self) -> (r: Self)
        ensures
            r == *self,
        decreases *self,
    {
        match self {
            AttrList::Nil => AttrList::Nil,
            AttrList::Cons(k, v, t) => AttrList::Cons(*k, v.clone(), Box::new((**t).clone())),
        }
    }
}

/// A change to a file as a whole.
#[derive(Debug, PartialEq, Eq)]
pub enum FilePatch {
    UpdateRules { rules: Rules },
}

/// A change to a node's content.
#[derive(Debug, PartialEq, Eq)]
pub enum ContentPatch {
    Replace { content: Content },
}

/// A change to a node's ordered children.
#[derive(Clone, Copy, Debug, PartialEq, Eq, Structural)]
pub enum ChildrenPatch {
    Insert { index: usize, node: NodeId },
    Remove { index: usize },
    Move { index: usize, to: usize },
}

/// A change to a node's attributes.
#[derive(Debug, PartialEq, Eq)]
pub enum AttributePatch {
    Update { key: u64, value: String },
    Remove { key: u64 },
}

/// One admissible mutation of the shared state, self-sufficient for
/// deterministic replay.
#[allow(inconsistent_fields)]
#[derive(Debug, PartialEq, Eq)]
pub enum Event {
    AddOwner { user_id: UserId },
    RemoveOwner { user_id: UserId },
    AddFile(FileId),
    PatchFile { file_id: FileId, patch: FilePatch },
    AddNode { node_id: NodeId, file_id: FileId, content: Content },
    RemoveNode { node_id: NodeId },
    PatchContent { node_id: NodeId, patch: ContentPatch },
    PatchChildren { node_id: NodeId, patch: ChildrenPatch },
    PatchAttribute { node_id: NodeId, patch: AttributePatch },
}

impl Event {
    /// The node whose document-index record this event writes, if any.
    pub open spec fn written_node(&self) -> Option<NodeId> {
        match *self {
            Event::AddNode { node_id, .. } => Some(node_id),
            Event::RemoveNode { node_id } => Some(node_id),
            Event::PatchContent { node_id, .. } => Some(node_id),
            Event::PatchChildren { node_id, .. } => Some(node_id),
            Event::PatchAttribute { node_id, .. } => Some(node_id),
            _ => None,
        }
    }

    /// The operation a file's rules must grant for this event, where the
    /// event is governed by rules rather than by ownership.
    pub open spec fn operation(&self) -> Option<NodeOperation> {
        match *self {
            Event::AddNode { .. } => Some(NodeOperation::AddNode),
            Event::RemoveNode { .. } => Some(NodeOperation::RemoveNode),
            Event::PatchContent { .. } => Some(NodeOperation::PatchContentReplace),
            Event::PatchChildren { patch, .. } => match patch {
                ChildrenPatch::Insert { .. } => Some(NodeOperation::PatchChildrenInsert),
                ChildrenPatch::Remove { .. } => Some(NodeOperation::PatchChildrenRemove),
                ChildrenPatch::Move { .. } => Some(NodeOperation::PatchChildrenMove),
            },
            Event::PatchAttribute { patch, .. } => match patch {
                AttributePatch::Update { .. } => Some(NodeOperation::PatchAttributeUpdate),
                AttributePatch::Remove { .. } => Some(NodeOperation::PatchAttributeRemove),
            },
            _ => None,
        }
    }
}

impl Clone for FilePatch {
    fn clone(&self) -> (r: Self)
        ensures
            r == *self,
    {
        match self {
            FilePatch::UpdateRules { rules } => FilePatch::UpdateRules { rules: rules.clone() },
        }
    }
}

impl Clone for ContentPatch {
    fn clone(&self) -> (r: Self)
        ensures
            r == *self,
    {
        match self {
            ContentPatch::Replace { content } => ContentPatch::Replace {
                content: content.clone(),
            },
        }
    }
}

impl Clone for AttributePatch {
    fn clone(&self) -> (r: Self)
        ensures
            r == *self,
    {
        match self {
            AttributePatch::Update { key, value } => AttributePatch::Update {
                key: *key,
                value: value.clone(),
            },
            AttributePatch::Remove { key } => AttributePatch::Remove { key: *key },
        }
    }
}

impl Clone for Event {
    fn clone(&self) -> (r: Self)
        ensures
            r == *self,
    {
        match self {
            Event::AddOwner { user_id } => Event::AddOwner { user_id: *user_id },
            Event::RemoveOwner { user_id } => Event::RemoveOwner { user_id: *user_id },
            Event::AddFile(file_id) => Event::AddFile(*file_id),
            Event::PatchFile { file_id, patch } => Event::PatchFile {
                file_id: *file_id,
                patch: patch.clone(),
            },
            Event::AddNode { node_id, file_id, content } => Event::AddNode {
                node_id: *node_id,
                file_id: *file_id,
                content: content.clone(),
            },
            Event::RemoveNode { node_id } => Event::RemoveNode { node_id: *node_id },
            Event::PatchContent { node_id, patch } => Event::PatchContent {
                node_id: *node_id,
                patch: patch.clone(),
            },
            Event::PatchChildren { node_id, patch } => Event::PatchChildren {
                node_id: *node_id,
                patch: *patch,
            },
            Event::PatchAttribute { node_id, patch } => Event::PatchAttribute {
                node_id: *node_id,
                patch: patch.clone(),
            },
        }
    }
}

/// An event as it stands in the log: the event, its actor, and its log index.
/// Entries apply strictly in poll-return order; the index is informational.
#[derive(Debug, PartialEq, Eq)]
pub struct EventEntry {
    pub index: u64,
    pub user_id: UserId,
    pub event: Event,
}

impl Clone for EventEntry {
    fn clone(&self) -> (r: Self)
        ensures
            r == *self,
    {
        EventEntry { index: self.index, user_id: self.user_id, event: self.event.clone() }
    }
}

} // verus!
