use dkernel::content::{Content, DataType, DataTypeList, LinkName};
use dkernel::error::StageError;
use dkernel::event::{AttributePatch, ChildrenPatch, ContentPatch, Event};
use dkernel::ids::{FileId, NodeId};
use dkernel::ir::{AInstr, AInstrList, Terminator};
use dkernel::queries::KernelQueries;

fn add_node(engine: &mut KernelQueries, id: u64, content: Content) {
    engine.handle_event(&Event::AddNode {
        node_id: NodeId(id),
        file_id: FileId(1),
        content,
    });
}

fn link(engine: &mut KernelQueries, parent: u64, index: usize, child: u64) {
    engine.handle_event(&Event::PatchChildren {
        node_id: NodeId(parent),
        patch: ChildrenPatch::Insert { index, node: NodeId(child) },
    });
}

fn one_param_apply(parameter: DataType, body: DataType) -> Content {
    Content::Apply {
        ty: DataType::Function {
            parameters: DataTypeList::Cons(Box::new(parameter), Box::new(DataTypeList::Nil)),
            body: Box::new(body),
        },
        link_name: LinkName::Unnamed,
    }
}

#[test]
fn cached_query_returns_identical_instance() {
    let mut engine = KernelQueries::new();
    add_node(&mut engine, 1, Content::String("x".to_string()));
    let first = engine.build_ast(NodeId(1)).unwrap();
    let second = engine.build_ast(NodeId(1)).unwrap();
    // no input changed: the very same cached instance comes back
    assert_eq!(first, second);
    let h1 = engine.hir(NodeId(1)).unwrap();
    let h2 = engine.hir(NodeId(1)).unwrap();
    assert_eq!(h1, h2);
}

#[test]
fn unrelated_write_keeps_cached_instance() {
    let mut engine = KernelQueries::new();
    add_node(&mut engine, 1, Content::String("x".to_string()));
    add_node(&mut engine, 2, Content::String("y".to_string()));
    let first = engine.build_ast(NodeId(1)).unwrap();
    // a write to a node unit 1 never read must not invalidate unit 1
    engine.handle_event(&Event::PatchContent {
        node_id: NodeId(2),
        patch: ContentPatch::Replace { content: Content::Number(3) },
    });
    let second = engine.build_ast(NodeId(1)).unwrap();
    assert_eq!(first, second);
}

#[test]
fn reachable_write_forces_recomputation() {
    let mut engine = KernelQueries::new();
    add_node(&mut engine, 1, Content::String("x".to_string()));
    let first = engine.build_ast(NodeId(1)).unwrap();
    engine.handle_event(&Event::PatchContent {
        node_id: NodeId(1),
        patch: ContentPatch::Replace { content: Content::String("z".to_string()) },
    });
    let second = engine.build_ast(NodeId(1)).unwrap();
    // the prior instance must not be served again
    assert_ne!(first, second);
    let node = engine.node_value(second).unwrap();
    assert_eq!(node.content, Content::String("z".to_string()));
}

#[test]
fn child_write_invalidates_parent() {
    let mut engine = KernelQueries::new();
    add_node(&mut engine, 1, one_param_apply(DataType::String, DataType::Number));
    add_node(&mut engine, 2, Content::String("s".to_string()));
    link(&mut engine, 1, 0, 2);
    let first = engine.hir(NodeId(1)).unwrap();
    // unit 1 reads node 2 through its child list
    engine.handle_event(&Event::PatchContent {
        node_id: NodeId(2),
        patch: ContentPatch::Replace { content: Content::String("t".to_string()) },
    });
    let second = engine.hir(NodeId(1)).unwrap();
    assert_ne!(first, second);
}

#[test]
fn error_is_not_sticky() {
    let mut engine = KernelQueries::new();
    // a number is applied as if it were a function: the typed stage fails
    add_node(&mut engine, 1, Content::Apply {
        ty: DataType::Number,
        link_name: LinkName::Unnamed,
    });
    add_node(&mut engine, 2, Content::String("s".to_string()));
    link(&mut engine, 1, 0, 2);
    let e1 = engine.thir(NodeId(1)).unwrap_err();
    assert_eq!(e1.error, StageError::NotAFunction(NodeId(1)));
    // the failure is recomputed, never replayed: a second occurrence is a
    // distinguishable value
    let e2 = engine.thir(NodeId(1)).unwrap_err();
    assert_eq!(e2.error, StageError::NotAFunction(NodeId(1)));
    assert_ne!(e1, e2);
    // an admitted fix to the faulty input makes the next query succeed
    engine.handle_event(&Event::PatchContent {
        node_id: NodeId(1),
        patch: ContentPatch::Replace {
            content: one_param_apply(DataType::String, DataType::Number),
        },
    });
    let h = engine.thir(NodeId(1)).unwrap();
    assert!(engine.thir_value(h).is_some());
}

#[test]
fn argument_mismatch_is_reported() {
    let mut engine = KernelQueries::new();
    add_node(&mut engine, 1, one_param_apply(DataType::Number, DataType::Number));
    add_node(&mut engine, 2, Content::String("s".to_string()));
    link(&mut engine, 1, 0, 2);
    let e = engine.thir(NodeId(1)).unwrap_err();
    assert_eq!(e.error, StageError::ArgumentMismatch(NodeId(1)));
}

#[test]
fn cyclic_children_give_cycle_error() {
    let mut engine = KernelQueries::new();
    add_node(&mut engine, 1, Content::Number(1));
    add_node(&mut engine, 2, Content::Number(2));
    link(&mut engine, 1, 0, 2);
    link(&mut engine, 2, 0, 1);
    let e = engine.build_ast(NodeId(1)).unwrap_err();
    assert_eq!(e.error, StageError::CycleDetected(NodeId(1)));
}

#[test]
fn missing_node_is_reported() {
    let mut engine = KernelQueries::new();
    let e = engine.ast(NodeId(42)).unwrap_err();
    assert_eq!(e.error, StageError::MissingNode(NodeId(42)));
}

#[test]
fn removed_node_is_invisible() {
    let mut engine = KernelQueries::new();
    add_node(&mut engine, 1, Content::Number(1));
    assert!(engine.content(NodeId(1)).is_some());
    engine.handle_event(&Event::RemoveNode { node_id: NodeId(1) });
    // removal never deletes the record, but makes it invisible to queries
    assert!(engine.content(NodeId(1)).is_none());
    let e = engine.build_ast(NodeId(1)).unwrap_err();
    assert_eq!(e.error, StageError::MissingNode(NodeId(1)));
}

#[test]
fn attributes_follow_patches() {
    let mut engine = KernelQueries::new();
    add_node(&mut engine, 1, Content::Number(1));
    engine.handle_event(&Event::PatchAttribute {
        node_id: NodeId(1),
        patch: AttributePatch::Update { key: 7, value: "x".to_string() },
    });
    assert_eq!(
        engine.attributes(NodeId(1)).unwrap().get(7),
        Some(&"x".to_string())
    );
    engine.handle_event(&Event::PatchAttribute {
        node_id: NodeId(1),
        patch: AttributePatch::Remove { key: 7 },
    });
    assert_eq!(engine.attributes(NodeId(1)).unwrap().get(7), None);
}

#[test]
fn children_follow_patches() {
    let mut engine = KernelQueries::new();
    add_node(&mut engine, 1, Content::Number(1));
    add_node(&mut engine, 2, Content::Number(2));
    add_node(&mut engine, 3, Content::Number(3));
    link(&mut engine, 1, 0, 2);
    link(&mut engine, 1, 1, 3);
    let children = engine.children(NodeId(1)).unwrap();
    assert_eq!(children.get_at(0), Some(NodeId(2)));
    assert_eq!(children.get_at(1), Some(NodeId(3)));
    engine.handle_event(&Event::PatchChildren {
        node_id: NodeId(1),
        patch: ChildrenPatch::Move { index: 0, to: 1 },
    });
    let children = engine.children(NodeId(1)).unwrap();
    assert_eq!(children.get_at(0), Some(NodeId(3)));
    assert_eq!(children.get_at(1), Some(NodeId(2)));
    engine.handle_event(&Event::PatchChildren {
        node_id: NodeId(1),
        patch: ChildrenPatch::Remove { index: 0 },
    });
    let children = engine.children(NodeId(1)).unwrap();
    assert_eq!(children.get_at(0), Some(NodeId(2)));
    assert_eq!(children.get_at(1), None);
}

#[test]
fn pipeline_reaches_execution_context() {
    let mut engine = KernelQueries::new();
    add_node(&mut engine, 1, one_param_apply(DataType::String, DataType::Number));
    add_node(&mut engine, 2, Content::String("s".to_string()));
    link(&mut engine, 1, 0, 2);

    let ah = engine.amir(NodeId(1)).unwrap();
    let amirs = engine.amir_value(ah).unwrap();
    // evaluation order: the argument is pushed before the call
    match &amirs.instructions {
        AInstrList::Cons(first, rest) => {
            assert_eq!(**first, AInstr::PushString("s".to_string()));
            match &**rest {
                AInstrList::Cons(second, tail) => {
                    assert!(matches!(**second, AInstr::CallFunction { .. }));
                    assert_eq!(**tail, AInstrList::Nil);
                }
                AInstrList::Nil => panic!("missing call instruction"),
            }
        }
        AInstrList::Nil => panic!("missing instructions"),
    }

    let mh = engine.mir(NodeId(1)).unwrap();
    let mirs = engine.mir_value(mh).unwrap().clone();
    assert_eq!(mirs.entry.terminator, Terminator::Return);

    let eh = engine.execution_context(NodeId(1)).unwrap();
    let environment = engine.environment_value(eh).unwrap();
    assert_eq!(environment.counter, 0);
    assert_eq!(environment.program, mirs);
}
