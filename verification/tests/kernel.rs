use dkernel::content::{Content, DataType, DataTypeList, LinkName};
use dkernel::event::{ChildrenPatch, Event, EventEntry, FilePatch};
use dkernel::ids::{FileId, NodeId, UserId};
use dkernel::ir::{Expr, ExprList, Literal};
use dkernel::meta::{IrId, Meta, WithMeta};
use dkernel::repository::MemRepository;
use dkernel::rules::{NodeOperation, OpList, Rules, UserRules};
use dkernel::state::{EventLogState, OwnershipLogState, StateBox, StateTag};
use dkernel::ty::Type;
use dkernel::Kernel;

fn entry(user: UserId, event: Event) -> EventEntry {
    EventEntry { index: 0, user_id: user, event }
}

fn ops(list: &[NodeOperation]) -> OpList {
    let mut out = OpList::Nil;
    for op in list.iter().rev() {
        out = OpList::Cons(*op, Box::new(out));
    }
    out
}

fn wm<T>(value: T) -> WithMeta<T> {
    WithMeta { id: IrId::default(), meta: Meta::default(), value }
}

fn string_to_number_apply() -> Content {
    Content::Apply {
        ty: DataType::Function {
            parameters: DataTypeList::Cons(
                Box::new(DataType::String),
                Box::new(DataTypeList::Nil),
            ),
            body: Box::new(DataType::Number),
        },
        link_name: LinkName::Unnamed,
    }
}

fn expected_apply_hir() -> WithMeta<Expr> {
    wm(Expr::Apply {
        function: wm(Type::Function {
            parameter: Box::new(wm(Type::String)),
            body: Box::new(wm(Type::Number)),
        }),
        link_name: LinkName::Unnamed,
        arguments: ExprList::Cons(
            Box::new(wm(Expr::Literal(Literal::String("string".to_string())))),
            Box::new(ExprList::Nil),
        ),
    })
}

fn seeded_repository(second_owner_author: UserId) -> MemRepository {
    let user_a = UserId(1);
    let user_b = UserId(2);
    let node_a = NodeId(10);
    let node_b = NodeId(11);
    let file_id = FileId(5);

    let mut repository = MemRepository::new(user_a);
    repository.push_entry(entry(user_a, Event::AddOwner { user_id: user_a }));
    repository.push_entry(entry(user_a, Event::AddFile(file_id)));
    repository.push_entry(entry(
        user_a,
        Event::PatchFile {
            file_id,
            patch: FilePatch::UpdateRules {
                rules: Rules {
                    default: ops(&[
                        NodeOperation::AddNode,
                        NodeOperation::PatchChildrenInsert,
                    ]),
                    users: UserRules::Nil,
                },
            },
        },
    ));
    repository.push_entry(entry(second_owner_author, Event::AddOwner { user_id: user_b }));
    repository.push_entry(entry(
        user_a,
        Event::AddNode { node_id: node_a, file_id, content: string_to_number_apply() },
    ));
    repository.push_entry(entry(
        user_b,
        Event::AddNode {
            node_id: node_b,
            file_id,
            content: Content::String("string".to_string()),
        },
    ));
    repository.push_entry(entry(
        user_b,
        Event::PatchChildren {
            node_id: node_a,
            patch: ChildrenPatch::Insert { index: 0, node: node_b },
        },
    ));
    repository
}

#[test]
fn integration() {
    // the second AddOwner is authored by the not-yet-owner it names, so the
    // audit denies it and only six entries are admitted
    let repository = seeded_repository(UserId(2));
    let mut kernel = Kernel::new(repository);
    kernel.add_state(StateBox::EventLog(EventLogState { received: Vec::new() }));
    kernel.process();

    assert_eq!(kernel.snapshot.flat_nodes.len(), 2);
    assert_eq!(kernel.snapshot.owners.len(), 1);

    let h = kernel.hirs.hir(NodeId(10)).unwrap();
    assert_eq!(kernel.hirs.hir_value(h).unwrap(), &expected_apply_hir());

    match kernel.get_state(StateTag::EventLog).unwrap() {
        StateBox::EventLog(s) => {
            assert_eq!(s.received.len(), 6);
            assert_eq!(s.received[0], Event::AddOwner { user_id: UserId(1) });
        }
        _ => panic!("wrong subscriber kind"),
    }
}

#[test]
fn end_to_end() {
    // the second AddOwner is authored by the existing owner, so all seven
    // entries are admitted and both users become owners
    let repository = seeded_repository(UserId(1));
    let mut kernel = Kernel::new(repository);
    kernel.add_state(StateBox::EventLog(EventLogState { received: Vec::new() }));
    kernel.process();

    assert_eq!(kernel.snapshot.owners.len(), 2);
    assert_eq!(kernel.snapshot.flat_nodes.len(), 2);

    let h = kernel.hirs.hir(NodeId(10)).unwrap();
    assert_eq!(kernel.hirs.hir_value(h).unwrap(), &expected_apply_hir());

    match kernel.get_state(StateTag::EventLog).unwrap() {
        StateBox::EventLog(s) => assert_eq!(s.received.len(), 7),
        _ => panic!("wrong subscriber kind"),
    }
}

#[test]
fn empty_process_is_identity() {
    let repository = seeded_repository(UserId(1));
    let mut kernel = Kernel::new(repository);
    kernel.add_state(StateBox::EventLog(EventLogState { received: Vec::new() }));
    kernel.process();

    let owners_before = kernel.snapshot.owners.len();
    let nodes_before = kernel.snapshot.flat_nodes.len();
    let history_before = kernel.history().len();

    // nothing is pending: reprocessing must change no component at all
    kernel.process();
    assert_eq!(kernel.snapshot.owners.len(), owners_before);
    assert_eq!(kernel.snapshot.flat_nodes.len(), nodes_before);
    assert_eq!(kernel.history().len(), history_before);
    match kernel.get_state(StateTag::EventLog).unwrap() {
        StateBox::EventLog(s) => assert_eq!(s.received.len(), history_before),
        _ => panic!("wrong subscriber kind"),
    }
}

#[test]
fn denied_event_has_no_side_effects() {
    let user_a = UserId(1);
    let intruder = UserId(9);
    let mut repository = MemRepository::new(user_a);
    repository.push_entry(entry(user_a, Event::AddOwner { user_id: user_a }));
    // a non-owner may neither add files nor manage owners
    repository.push_entry(entry(intruder, Event::AddFile(FileId(5))));
    repository.push_entry(entry(intruder, Event::RemoveOwner { user_id: user_a }));

    let mut kernel = Kernel::new(repository);
    kernel.add_state(StateBox::EventLog(EventLogState { received: Vec::new() }));
    kernel.process();

    assert_eq!(kernel.snapshot.owners.len(), 1);
    assert_eq!(kernel.snapshot.owners[0], user_a);
    assert_eq!(kernel.snapshot.rules.len(), 0);
    assert_eq!(kernel.history().len(), 1);
    match kernel.get_state(StateTag::EventLog).unwrap() {
        StateBox::EventLog(s) => assert_eq!(s.received.len(), 1),
        _ => panic!("wrong subscriber kind"),
    }
}

#[test]
fn under_permissioned_owner_is_denied() {
    let user_a = UserId(1);
    let user_b = UserId(2);
    let file_id = FileId(5);
    let mut repository = MemRepository::new(user_a);
    repository.push_entry(entry(user_a, Event::AddOwner { user_id: user_a }));
    repository.push_entry(entry(user_a, Event::AddFile(file_id)));
    // the default grants nothing; only user_b has an override
    repository.push_entry(entry(
        user_a,
        Event::PatchFile {
            file_id,
            patch: FilePatch::UpdateRules {
                rules: Rules {
                    default: OpList::Nil,
                    users: UserRules::Cons(
                        user_b,
                        ops(&[NodeOperation::AddNode]),
                        Box::new(UserRules::Nil),
                    ),
                },
            },
        },
    ));
    // the owner is bound by the rules too: denied
    repository.push_entry(entry(
        user_a,
        Event::AddNode {
            node_id: NodeId(20),
            file_id,
            content: Content::Number(1),
        },
    ));
    // the override admits user_b
    repository.push_entry(entry(
        user_b,
        Event::AddNode {
            node_id: NodeId(21),
            file_id,
            content: Content::Number(2),
        },
    ));

    let mut kernel = Kernel::new(repository);
    kernel.process();
    assert_eq!(kernel.snapshot.flat_nodes.len(), 1);
    assert!(kernel.snapshot.flat_nodes.contains_key(&21));
    assert!(!kernel.snapshot.flat_nodes.contains_key(&20));
}

#[test]
fn two_subscribers_observe_pre_event_snapshots() {
    let repository = seeded_repository(UserId(1));
    let mut kernel = Kernel::new(repository);
    kernel.add_state(StateBox::EventLog(EventLogState { received: Vec::new() }));
    kernel.add_state(StateBox::OwnershipLog(OwnershipLogState {
        owners_before: Vec::new(),
    }));
    kernel.process();

    let received = match kernel.get_state(StateTag::EventLog).unwrap() {
        StateBox::EventLog(s) => s.received.clone(),
        _ => panic!("wrong subscriber kind"),
    };
    let counts = match kernel.get_state(StateTag::OwnershipLog).unwrap() {
        StateBox::OwnershipLog(s) => s.owners_before.clone(),
        _ => panic!("wrong subscriber kind"),
    };
    // both subscribers saw every admitted event exactly once, in order
    assert_eq!(received.len(), 7);
    assert_eq!(counts.len(), 7);
    // the snapshot each observed is the one from before its event: no owner
    // before the first event, one before the next three, two afterwards
    assert_eq!(counts, vec![0, 1, 1, 1, 2, 2, 2]);
    assert_eq!(received[0], Event::AddOwner { user_id: UserId(1) });
    assert_eq!(received[3], Event::AddOwner { user_id: UserId(2) });
}

#[test]
fn add_state_replaces_same_kind() {
    let repository = MemRepository::new(UserId(1));
    let mut kernel = Kernel::new(repository);
    kernel.add_state(StateBox::EventLog(EventLogState {
        received: vec![Event::AddFile(FileId(1))],
    }));
    kernel.add_state(StateBox::EventLog(EventLogState { received: Vec::new() }));
    match kernel.get_state(StateTag::EventLog).unwrap() {
        StateBox::EventLog(s) => assert_eq!(s.received.len(), 0),
        _ => panic!("wrong subscriber kind"),
    }
    assert!(kernel.get_state(StateTag::OwnershipLog).is_none());
}

#[test]
fn commit_forwards_to_repository() {
    let repository = MemRepository::new(UserId(1));
    let mut kernel = Kernel::new(repository);
    kernel.commit(Event::AddOwner { user_id: UserId(1) });
    kernel.commit(Event::AddFile(FileId(5)));
    // admission happens at apply time: both entries reach the kernel only
    // through process, in commit order
    kernel.process();
    assert_eq!(kernel.snapshot.owners.len(), 1);
    assert_eq!(kernel.snapshot.rules.len(), 1);
    assert_eq!(kernel.history().len(), 2);
}

#[test]
fn history_tracks_per_node_events() {
    let repository = seeded_repository(UserId(1));
    let mut kernel = Kernel::new(repository);
    kernel.process();
    let node_a_events = kernel.history().events_for(NodeId(10));
    assert_eq!(node_a_events.len(), 2);
    assert!(matches!(node_a_events[0], Event::AddNode { .. }));
    assert!(matches!(node_a_events[1], Event::PatchChildren { .. }));
    let node_b_events = kernel.history().events_for(NodeId(11));
    assert_eq!(node_b_events.len(), 1);
}

#[test]
fn incremental_query_survives_unrelated_processing() {
    let repository = seeded_repository(UserId(1));
    let mut kernel = Kernel::new(repository);
    kernel.process();

    let first = kernel.hirs.hir(NodeId(10)).unwrap();
    // an admitted event that touches nothing unit 10 reads...
    kernel.commit(Event::AddNode {
        node_id: NodeId(30),
        file_id: FileId(5),
        content: Content::Number(9),
    });
    kernel.process();
    // ...leaves the memoized result servable as the identical instance
    let second = kernel.hirs.hir(NodeId(10)).unwrap();
    assert_eq!(first, second);

    // while an admitted write to a node it did read forces a fresh instance
    kernel.commit(Event::PatchChildren {
        node_id: NodeId(10),
        patch: ChildrenPatch::Insert { index: 1, node: NodeId(30) },
    });
    kernel.process();
    let third = kernel.hirs.hir(NodeId(10)).unwrap();
    assert_ne!(second, third);
}

#[test]
fn get_state_mut_finds_and_misses_explicitly() {
    let repository = MemRepository::new(UserId(1));
    let mut kernel = Kernel::new(repository);
    // a miss is an explicit absence, not a fault, and changes nothing
    assert!(kernel.get_state_mut(StateTag::EventLog).is_none());
    kernel.add_state(StateBox::EventLog(EventLogState { received: Vec::new() }));
    // a hit hands out exactly the slot registered under the tag
    match kernel.get_state_mut(StateTag::EventLog) {
        Some(StateBox::EventLog(s)) => {
            s.received.push(Event::AddFile(FileId(3)));
        }
        _ => panic!("expected the event-log subscriber"),
    }
    // the write through the handle landed in that slot and nowhere else
    match kernel.get_state(StateTag::EventLog).unwrap() {
        StateBox::EventLog(s) => {
            assert_eq!(s.received, vec![Event::AddFile(FileId(3))]);
        }
        _ => panic!("wrong subscriber kind"),
    }
    assert!(kernel.get_state_mut(StateTag::OwnershipLog).is_none());
}
