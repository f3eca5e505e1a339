use vstd::prelude::*;
use crate::event::{Event, EventEntry};
use crate::snapshot::{Snapshot, SnapshotView};
use crate::rules::AuditResponse;

verus! {

/// Whether the snapshot admits the entry.
///
/// Owner management (`AddOwner`, `RemoveOwner`) is allowed to a current
/// owner, and to anyone while no owners exist yet: the first owner
/// bootstraps themself. File management (`AddFile`, `PatchFile`) is allowed
/// to owners only. A node-mutating event is allowed exactly when the rules
/// of the node's file grant the event's operation to the actor; owners get
/// no bypass. A node event against an unknown file or node is denied.
pub open spec fn audit_allows(s: SnapshotView, entry: EventEntry) -> bool {
    match entry.event {
        Event::AddOwner { .. } | Event::RemoveOwner { .. } => s.owners.contains(entry.user_id)
            || s.owners.len() == 0,
        Event::AddFile(_) | Event::PatchFile { .. } => s.owners.contains(entry.user_id),
        Event::AddNode { file_id, .. } => s.rules.contains_key(file_id.0)
            && s.rules[file_id.0].spec_grants(
            entry.user_id,
            entry.event.operation().unwrap(),
        ),
        Event::RemoveNode { node_id } | Event::PatchContent { node_id, .. }
        | Event::PatchChildren { node_id, .. } | Event::PatchAttribute { node_id, .. } => {
            &&& s.flat_nodes.contains_key(node_id.0)
            &&& s.rules.contains_key(s.flat_nodes[node_id.0].file_id.0)
            &&& s.rules[s.flat_nodes[node_id.0].file_id.0].spec_grants(
                entry.user_id,
                entry.event.operation().unwrap(),
            )
        },
    }
}

/// The pure access decision gating event application. It never mutates
/// state, so it is safe to re-evaluate for a dry run or policy preview.
pub fn audit(snapshot: &Snapshot, entry: &EventEntry) -> (r: AuditResponse)
    ensures
        r == AuditResponse::Allowed <==> audit_allows(snapshot@, *entry),
{
    let allowed: bool = match &entry.event {
        Event::AddOwner { .. } | Event::RemoveOwner { .. } => snapshot.is_owner(entry.user_id)
            || snapshot.owners.len() == 0,
        Event::AddFile(_) | Event::PatchFile { .. } => snapshot.is_owner(entry.user_id),
        Event::AddNode { file_id, .. } => match snapshot.rules_of(*file_id) {
            Some(rules) => rules.grants(entry.user_id, crate::rules::NodeOperation::AddNode),
            None => false,
        },
        Event::RemoveNode { node_id } | Event::PatchContent { node_id, .. }
        | Event::PatchChildren { node_id, .. } | Event::PatchAttribute { node_id, .. } => {
            match snapshot.node_summary(*node_id) {
                Some(summary) => match snapshot.rules_of(summary.file_id) {
                    Some(rules) => {
                        let op = match &entry.event {
                            Event::RemoveNode { .. } => crate::rules::NodeOperation::RemoveNode,
                            Event::PatchContent { .. } =>
                                crate::rules::NodeOperation::PatchContentReplace,
                            Event::PatchChildren { patch, .. } => match patch {
                                crate::event::ChildrenPatch::Insert { .. } =>
                                    crate::rules::NodeOperation::PatchChildrenInsert,
                                crate::event::ChildrenPatch::Remove { .. } =>
                                    crate::rules::NodeOperation::PatchChildrenRemove,
                                crate::event::ChildrenPatch::Move { .. } =>
                                    crate::rules::NodeOperation::PatchChildrenMove,
                            },
                            Event::PatchAttribute { patch, .. } => match patch {
                                crate::event::AttributePatch::Update { .. } =>
                                    crate::rules::NodeOperation::PatchAttributeUpdate,
                                crate::event::AttributePatch::Remove { .. } =>
                                    crate::rules::NodeOperation::PatchAttributeRemove,
                            },
                            _ => crate::rules::NodeOperation::AddNode,
                        };
                        rules.grants(entry.user_id, op)
                    },
                    None => false,
                },
                None => false,
            }
        },
    };
    if allowed {
        AuditResponse::Allowed
    } else {
        AuditResponse::Denied
    }
}

} // verus!
