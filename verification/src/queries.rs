use vstd::prelude::*;
use std::collections::HashMap;
use crate::content::Content;
use crate::error::{KernelError, KernelResult, StageError};
use crate::event::{AttrList, AttributePatch, ChildrenPatch, ContentPatch, Event};
use crate::ids::{IdList, NodeId};
use crate::ir::{Amirs, AstExpr, Environment, Expr, Mirs, Node, NodeList, Spanned, TypedHir};
use crate::meta::WithMeta;

verus! {

broadcast use {
    vstd::std_specs::hash::group_hash_axioms,
    vstd::std_specs::hash::axiom_hashmap_view_finite_dom,
    vstd::set::group_set_axioms,
};


/// One node's primitive inputs, settable only by admitted events: its
/// content, its ordered children, its attributes, and whether it is still
/// visible. A removed node keeps its record but turns invisible to queries.
#[derive(Debug, PartialEq, Eq)]
pub struct NodeRecord {
    pub content: Content,
    pub children: IdList,
    pub attributes: AttrList,
    pub visible: bool,
}

impl Clone for NodeRecord {
    fn clone(&self) -> (r: Self)
        ensures
            r == *self,
    {
        NodeRecord {
            content: self.content.clone(),
            children: self.children.clone(),
            attributes: self.attributes.clone(),
            visible: self.visible,
        }
    }
}

/// The mathematical value of the engine's input layer: the node records,
/// the per-node epoch counters, and the next write stamp.
pub ghost struct DocView {
    pub data: Map<u64, NodeRecord>,
    pub epochs: Map<u64, u64>,
    pub rev: u64,
}

/// How one admitted event changes the node records.
pub open spec fn data_step(data: Map<u64, NodeRecord>, e: Event) -> Map<u64, NodeRecord> {
    match e {
        Event::AddNode { node_id, content, .. } => data.insert(
            node_id.0,
            NodeRecord {
                content,
                children: IdList::Nil,
                attributes: AttrList::Nil,
                visible: true,
            },
        ),
        Event::RemoveNode { node_id } => if data.contains_key(node_id.0) {
            data.insert(node_id.0, NodeRecord { visible: false, ..data[node_id.0] })
        } else {
            data
        },
        Event::PatchContent { node_id, patch } => if data.contains_key(node_id.0) {
            match patch {
                ContentPatch::Replace { content } => data.insert(
                    node_id.0,
                    NodeRecord { content, ..data[node_id.0] },
                ),
            }
        } else {
            data
        },
        Event::PatchChildren { node_id, patch } => if data.contains_key(node_id.0) {
            let rec = data[node_id.0];
            let children = match patch {
                ChildrenPatch::Insert { index, node } => rec.children.spec_insert(
                    index as nat,
                    node,
                ),
                ChildrenPatch::Remove { index } => rec.children.spec_remove(index as nat),
                ChildrenPatch::Move { index, to } => rec.children.spec_move(
                    index as nat,
                    to as nat,
                ),
            };
            data.insert(node_id.0, NodeRecord { children, ..rec })
        } else {
            data
        },
        Event::PatchAttribute { node_id, patch } => if data.contains_key(node_id.0) {
            let rec = data[node_id.0];
            let attributes = match patch {
                AttributePatch::Update { key, value } => rec.attributes.spec_update(key, value),
                AttributePatch::Remove { key } => rec.attributes.spec_remove(key),
            };
            data.insert(node_id.0, NodeRecord { attributes, ..rec })
        } else {
            data
        },
        _ => data,
    }
}

/// How one admitted event changes the whole input layer. A write bumps the
/// written node's epoch to the current stamp; at stamp exhaustion the epochs
/// restart from a blank slate (and every memoized result is discarded).
pub open spec fn doc_step(d: DocView, e: Event) -> DocView {
    match e.written_node() {
        None => d,
        Some(n) => {
            let rv: u64 = if d.rev == u64::MAX {
                1
            } else {
                d.rev
            };
            let eps: Map<u64, u64> = if d.rev == u64::MAX {
                Map::empty()
            } else {
                d.epochs
            };
            DocView {
                data: data_step(d.data, e),
                epochs: eps.insert(n.0, rv),
                rev: (rv + 1) as u64,
            }
        },
    }
}

/// A whole batch of admitted events applied to the input layer, in order.
pub open spec fn doc_steps(d: DocView, events: Seq<Event>) -> DocView
    decreases events.len(),
{
    if events.len() == 0 {
        d
    } else {
        doc_steps(doc_step(d, events[0]), events.drop_first())
    }
}

/// The epoch of a primitive input: zero until its node is first written.
pub open spec fn epoch_of(eps: Map<u64, u64>, k: u64) -> u64 {
    if eps.contains_key(k) {
        eps[k]
    } else {
        0
    }
}

/// Whether the node exists and is visible to queries.
pub open spec fn spec_visible(data: Map<u64, NodeRecord>, id: u64) -> bool {
    data.contains_key(id) && data[id].visible
}

/// Node assembly: the node's record with every child assembled in turn,
/// guarded against running into an ancestor (a cycle) and against missing
/// or removed nodes.
pub open spec fn spec_assemble(data: Map<u64, NodeRecord>, id: u64, vis: Set<u64>) -> Result<
    Node,
    StageError,
>
    decreases data.dom().difference(vis).len(), 0int, 0int,
        when data.dom().finite() && vis.finite() && vis.subset_of(data.dom())
        via spec_assemble_decreases
{
    if !spec_visible(data, id) {
        Err(StageError::MissingNode(NodeId(id)))
    } else if vis.contains(id) {
        Err(StageError::CycleDetected(NodeId(id)))
    } else {
        match spec_assemble_kids(data, data[id].children, vis.insert(id)) {
            Err(e) => Err(e),
            Ok(kids) => Ok(
                Node {
                    id: NodeId(id),
                    content: data[id].content,
                    children: kids,
                    attributes: data[id].attributes,
                },
            ),
        }
    }
}

/// Assembly of an ordered child list; the first failure wins.
pub open spec fn spec_assemble_kids(data: Map<u64, NodeRecord>, kids: IdList, vis: Set<u64>) ->
    Result<NodeList, StageError>
    decreases data.dom().difference(vis).len(), 1int, kids.len() as int,
        when data.dom().finite() && vis.finite() && vis.subset_of(data.dom())
        via spec_assemble_kids_decreases
{
    match kids {
        IdList::Nil => Ok(NodeList::Nil),
        IdList::Cons(h, t) => match spec_assemble(data, h.0, vis) {
            Err(e) => Err(e),
            Ok(n) => match spec_assemble_kids(data, *t, vis) {
                Err(e) => Err(e),
                Ok(rest) => Ok(NodeList::Cons(Box::new(n), Box::new(rest))),
            },
        },
    }
}

#[via_fn]
proof fn spec_assemble_decreases(data: Map<u64, NodeRecord>, id: u64, vis: Set<u64>) {
    if spec_visible(data, id) && !vis.contains(id) {
        assert(data.dom().difference(vis.insert(id)) =~= data.dom().difference(vis).remove(id));
        assert(data.dom().difference(vis).contains(id));
        
    }
}

#[via_fn]
proof fn spec_assemble_kids_decreases(data: Map<u64, NodeRecord>, kids: IdList, vis: Set<u64>) {
}

/// The primitive inputs a node's assembly reads: the node itself and, when
/// it is visible and new to this walk, everything its children read. An
/// assembly that stops early still charges the whole child list, which can
/// only over-invalidate, never under-invalidate.
pub open spec fn spec_reach(data: Map<u64, NodeRecord>, id: u64, vis: Set<u64>) -> Set<u64>
    decreases data.dom().difference(vis).len(), 0int, 0int,
        when data.dom().finite() && vis.finite() && vis.subset_of(data.dom())
        via spec_reach_decreases
{
    if !spec_visible(data, id) || vis.contains(id) {
        set![id]
    } else {
        set![id].union(spec_reach_kids(data, data[id].children, vis.insert(id)))
    }
}

/// The primitive inputs an ordered child list reads.
pub open spec fn spec_reach_kids(data: Map<u64, NodeRecord>, kids: IdList, vis: Set<u64>) -> Set<
    u64,
>
    decreases data.dom().difference(vis).len(), 1int, kids.len() as int,
        when data.dom().finite() && vis.finite() && vis.subset_of(data.dom())
        via spec_reach_kids_decreases
{
    match kids {
        IdList::Nil => Set::empty(),
        IdList::Cons(h, t) => spec_reach(data, h.0, vis).union(spec_reach_kids(data, *t, vis)),
    }
}

#[via_fn]
proof fn spec_reach_decreases(data: Map<u64, NodeRecord>, id: u64, vis: Set<u64>) {
    if spec_visible(data, id) && !vis.contains(id) {
        assert(data.dom().difference(vis.insert(id)) =~= data.dom().difference(vis).remove(id));
        assert(data.dom().difference(vis).contains(id));
        
    }
}

#[via_fn]
proof fn spec_reach_kids_decreases(data: Map<u64, NodeRecord>, kids: IdList, vis: Set<u64>) {
}


/// Agreement on a set carries to any subset.
proof fn lemma_agree_subset(
    d1: Map<u64, NodeRecord>,
    d2: Map<u64, NodeRecord>,
    big: Set<u64>,
    small: Set<u64>,
)
    requires
        spec_agree(d1, d2, big),
        small.subset_of(big),
    ensures
        spec_agree(d1, d2, small),
{
    assert forall|k: u64| small.contains(k) implies (d1.contains_key(k) == d2.contains_key(k) && (
    d1.contains_key(k) ==> d1[k] == d2[k])) by {
        assert(big.contains(k));
    }
}

/// Two input maps that agree on a set of nodes.
pub open spec fn spec_agree(
    d1: Map<u64, NodeRecord>,
    d2: Map<u64, NodeRecord>,
    s: Set<u64>,
) -> bool {
    forall|k: u64|
        s.contains(k) ==> (d1.contains_key(k) == d2.contains_key(k) && (d1.contains_key(k)
            ==> d1[k] == d2[k]))
}

/// The frame property of assembly: two input maps that agree on everything
/// one assembly reads assemble identically, and read the same inputs.
pub proof fn lemma_assemble_frame(
    d1: Map<u64, NodeRecord>,
    d2: Map<u64, NodeRecord>,
    id: u64,
    vis: Set<u64>,
)
    requires
        d1.dom().finite(),
        d2.dom().finite(),
        vis.finite(),
        vis.subset_of(d1.dom()),
        vis.subset_of(d2.dom()),
        spec_agree(d1, d2, spec_reach(d1, id, vis)),
    ensures
        spec_reach(d2, id, vis) == spec_reach(d1, id, vis),
        spec_assemble(d2, id, vis) == spec_assemble(d1, id, vis),
    decreases d1.dom().difference(vis).len(), 0int, 0int,
{
    assert(spec_reach(d1, id, vis).contains(id));
    assert(spec_visible(d2, id) == spec_visible(d1, id));
    if !spec_visible(d1, id) || vis.contains(id) {
        assert(spec_reach(d2, id, vis) =~= spec_reach(d1, id, vis));
    } else {
        let vis2 = vis.insert(id);
        assert(data_measure_decreases(d1, vis, id)) by {
            assert(d1.dom().difference(vis2) =~= d1.dom().difference(vis).remove(id));
            assert(d1.dom().difference(vis).contains(id));
            
        }
        let kids = d1[id].children;
        assert(d2[id].children == kids);
        assert(spec_reach(d1, id, vis) == set![id].union(spec_reach_kids(d1, kids, vis2)));
        assert(spec_reach_kids(d1, kids, vis2).subset_of(spec_reach(d1, id, vis)));
        lemma_agree_subset(d1, d2, spec_reach(d1, id, vis), spec_reach_kids(d1, kids, vis2));
        lemma_assemble_kids_frame(d1, d2, kids, vis2);
        assert(spec_reach(d2, id, vis) =~= spec_reach(d1, id, vis));
    }
}

/// Marker used to keep the cardinality argument in one place.
pub open spec fn data_measure_decreases(
    d: Map<u64, NodeRecord>,
    vis: Set<u64>,
    id: u64,
) -> bool {
    d.dom().difference(vis.insert(id)).len() < d.dom().difference(vis).len()
}

/// The frame property of child-list assembly.
pub proof fn lemma_assemble_kids_frame(
    d1: Map<u64, NodeRecord>,
    d2: Map<u64, NodeRecord>,
    kids: IdList,
    vis: Set<u64>,
)
    requires
        d1.dom().finite(),
        d2.dom().finite(),
        vis.finite(),
        vis.subset_of(d1.dom()),
        vis.subset_of(d2.dom()),
        spec_agree(d1, d2, spec_reach_kids(d1, kids, vis)),
    ensures
        spec_reach_kids(d2, kids, vis) == spec_reach_kids(d1, kids, vis),
        spec_assemble_kids(d2, kids, vis) == spec_assemble_kids(d1, kids, vis),
    decreases d1.dom().difference(vis).len(), 1int, kids.len() as int,
{
    match kids {
        IdList::Nil => {
            assert(spec_reach_kids(d2, kids, vis) =~= spec_reach_kids(d1, kids, vis));
        },
        IdList::Cons(h, t) => {
            assert(spec_reach_kids(d1, kids, vis) == spec_reach(d1, h.0, vis).union(
                spec_reach_kids(d1, *t, vis),
            ));
            assert(spec_reach(d1, h.0, vis).subset_of(spec_reach_kids(d1, kids, vis)));
            assert(spec_reach_kids(d1, *t, vis).subset_of(spec_reach_kids(d1, kids, vis)));
            lemma_agree_subset(
                d1,
                d2,
                spec_reach_kids(d1, kids, vis),
                spec_reach(d1, h.0, vis),
            );
            lemma_agree_subset(
                d1,
                d2,
                spec_reach_kids(d1, kids, vis),
                spec_reach_kids(d1, *t, vis),
            );
            lemma_assemble_frame(d1, d2, h.0, vis);
            lemma_assemble_kids_frame(d1, d2, *t, vis);
            assert(spec_reach_kids(d2, kids, vis) =~= spec_reach_kids(d1, kids, vis));
        },
    }
}

// ---------------------------------------------------------------------------
// stage evaluations: each derived query as a pure function of the inputs
// ---------------------------------------------------------------------------

/// Node assembly of a whole unit.
pub open spec fn eval_build(data: Map<u64, NodeRecord>, id: u64) -> Result<Node, StageError> {
    spec_assemble(data, id, Set::empty())
}

/// Every primitive input a unit's assembly reads.
pub open spec fn unit_reach(data: Map<u64, NodeRecord>, id: u64) -> Set<u64> {
    spec_reach(data, id, Set::empty())
}

/// The parse tree of a unit.
pub open spec fn eval_ast(data: Map<u64, NodeRecord>, id: u64) -> Result<
    Spanned<AstExpr>,
    StageError,
> {
    match eval_build(data, id) {
        Ok(n) => Ok(crate::ir::spec_node_to_ast(n)),
        Err(e) => Err(e),
    }
}

/// The high-level IR of a unit.
pub open spec fn eval_hir(data: Map<u64, NodeRecord>, id: u64) -> Result<
    WithMeta<Expr>,
    StageError,
> {
    match eval_ast(data, id) {
        Ok(a) => Ok(crate::ir::spec_ast_to_hir(a)),
        Err(e) => Err(e),
    }
}

/// The typed IR of a unit.
pub open spec fn eval_thir(data: Map<u64, NodeRecord>, id: u64) -> Result<TypedHir, StageError> {
    match eval_hir(data, id) {
        Ok(h) => crate::ir::spec_thir_of(h, NodeId(id)),
        Err(e) => Err(e),
    }
}

/// The administrative-normal-form IR of a unit.
pub open spec fn eval_amir(data: Map<u64, NodeRecord>, id: u64) -> Result<Amirs, StageError> {
    match eval_thir(data, id) {
        Ok(t) => Ok(crate::ir::spec_amir_of(t)),
        Err(e) => Err(e),
    }
}

/// The mid-level IR of a unit.
pub open spec fn eval_mir(data: Map<u64, NodeRecord>, id: u64) -> Result<Mirs, StageError> {
    match eval_amir(data, id) {
        Ok(a) => Ok(crate::ir::spec_mir_of(a)),
        Err(e) => Err(e),
    }
}

/// The execution context of a unit.
pub open spec fn eval_env(data: Map<u64, NodeRecord>, id: u64) -> Result<
    Environment,
    StageError,
> {
    match eval_mir(data, id) {
        Ok(m) => Ok(crate::ir::spec_env_of(m)),
        Err(e) => Err(e),
    }
}

// ---------------------------------------------------------------------------
// the memoization engine
// ---------------------------------------------------------------------------

/// One memoized result: the arena slot of the value, and the primitive
/// inputs it read, each with the epoch it was read at.
#[derive(Debug, PartialEq, Eq)]
pub struct MemoEntry {
    pub deps: Vec<(u64, u64)>,
    pub handle: usize,
}

/// One arena slot: a computed IR value any number of handles may share.
#[derive(Debug, PartialEq, Eq)]
pub enum IrValue {
    Ast(Node),
    Parse(Spanned<AstExpr>),
    Hir(WithMeta<Expr>),
    Thir(TypedHir),
    Amir(Amirs),
    Mir(Mirs),
    Env(Environment),
}

/// The node ids a dependency list names.
pub open spec fn dep_keys(deps: Seq<(u64, u64)>) -> Set<u64> {
    Set::new(|k: u64| exists|i: int| 0 <= i < deps.len() && deps[i].0 == k)
}

/// Whether every recorded epoch is still the input's current epoch.
pub open spec fn deps_fresh(eps: Map<u64, u64>, deps: Seq<(u64, u64)>) -> bool {
    forall|i: int| 0 <= i < deps.len() ==> #[trigger] deps[i].1 == epoch_of(eps, deps[i].0)
}

/// Every recorded epoch predates the next write stamp.
pub open spec fn deps_bounded(deps: Seq<(u64, u64)>, rev: u64) -> bool {
    forall|i: int| 0 <= i < deps.len() ==> #[trigger] deps[i].1 < rev
}

/// The seven memo tables as one mathematical value.
pub ghost struct MemoView {
    pub build: Map<u64, MemoEntry>,
    pub ast: Map<u64, MemoEntry>,
    pub hir: Map<u64, MemoEntry>,
    pub thir: Map<u64, MemoEntry>,
    pub amir: Map<u64, MemoEntry>,
    pub mir: Map<u64, MemoEntry>,
    pub env: Map<u64, MemoEntry>,
}

/// One table's entries outside `unit` are untouched.
pub open spec fn table_keeps(pre: Map<u64, MemoEntry>, post: Map<u64, MemoEntry>, unit: u64) -> bool {
    forall|k: u64|
        k != unit ==> (post.contains_key(k) == pre.contains_key(k) && (pre.contains_key(k)
            ==> post[k] == pre[k]))
}

/// Every memo entry outside `unit` is untouched, in every table.
pub open spec fn keeps_other_units(pre: MemoView, post: MemoView, unit: u64) -> bool {
    &&& table_keeps(pre.build, post.build, unit)
    &&& table_keeps(pre.ast, post.ast, unit)
    &&& table_keeps(pre.hir, post.hir, unit)
    &&& table_keeps(pre.thir, post.thir, unit)
    &&& table_keeps(pre.amir, post.amir, unit)
    &&& table_keeps(pre.mir, post.mir, unit)
    &&& table_keeps(pre.env, post.env, unit)
}

/// The memoized, demand-driven query engine over the document index.
///
/// The primitive inputs are set only by the event-application path. Each
/// derived query is memoized by argument with the exact set of primitive
/// inputs it read; a write to an input bumps that input's epoch, which
/// silently invalidates every memoized result whose recorded epochs no
/// longer match. A failing query is never memoized, so a failure can never
/// be replayed once its inputs change.
pub struct KernelQueries {
    nodes: HashMap<u64, NodeRecord>,
    epochs: HashMap<u64, u64>,
    rev: u64,
    ticks: u64,
    memo_build: HashMap<u64, MemoEntry>,
    memo_ast: HashMap<u64, MemoEntry>,
    memo_hir: HashMap<u64, MemoEntry>,
    memo_thir: HashMap<u64, MemoEntry>,
    memo_amir: HashMap<u64, MemoEntry>,
    memo_mir: HashMap<u64, MemoEntry>,
    memo_env: HashMap<u64, MemoEntry>,
    arena: Vec<IrValue>,
}

impl KernelQueries {
    /// The node records.
    pub closed spec fn data(&self) -> Map<u64, NodeRecord> {
        self.nodes@
    }

    /// The per-input epochs.
    pub closed spec fn eps(&self) -> Map<u64, u64> {
        self.epochs@
    }

    /// The next write stamp.
    pub closed spec fn revision(&self) -> u64 {
        self.rev
    }

    /// The whole input layer.
    pub open spec fn doc(&self) -> DocView {
        DocView { data: self.data(), epochs: self.eps(), rev: self.revision() }
    }

    /// The arena of computed values.
    pub closed spec fn arena_view(&self) -> Seq<IrValue> {
        self.arena@
    }

    /// The failure counter: how many stage failures the engine has stamped.
    pub closed spec fn stamps(&self) -> u64 {
        self.ticks
    }

    /// The seven memo tables.
    pub closed spec fn memos(&self) -> MemoView {
        MemoView {
            build: self.memo_build@,
            ast: self.memo_ast@,
            hir: self.memo_hir@,
            thir: self.memo_thir@,
            amir: self.memo_amir@,
            mir: self.memo_mir@,
            env: self.memo_env@,
        }
    }

    /// An entry whose recorded epochs are all current.
    pub open spec fn entry_fresh(&self, e: MemoEntry) -> bool {
        deps_fresh(self.eps(), e.deps@)
    }

    /// A coherent node-assembly entry: while its inputs are unchanged, its
    /// arena slot holds exactly the assembly of the current inputs, and its
    /// recorded inputs are exactly what that assembly reads.
    pub open spec fn build_ok(&self, id: u64, e: MemoEntry) -> bool {
        &&& (e.handle as int) < self.arena_view().len()
        &&& deps_bounded(e.deps@, self.revision())
        &&& (self.entry_fresh(e) ==> {
            &&& dep_keys(e.deps@) == unit_reach(self.data(), id)
            &&& match self.arena_view()[e.handle as int] {
                IrValue::Ast(n) => eval_build(self.data(), id) == Ok::<Node, StageError>(n),
                _ => false,
            }
        })
    }

    /// A coherent parse-tree entry.
    pub open spec fn ast_ok(&self, id: u64, e: MemoEntry) -> bool {
        &&& (e.handle as int) < self.arena_view().len()
        &&& deps_bounded(e.deps@, self.revision())
        &&& (self.entry_fresh(e) ==> {
            &&& dep_keys(e.deps@) == unit_reach(self.data(), id)
            &&& match self.arena_view()[e.handle as int] {
                IrValue::Parse(v) => eval_ast(self.data(), id) == Ok::<
                    Spanned<AstExpr>,
                    StageError,
                >(v),
                _ => false,
            }
        })
    }

    /// A coherent high-level-IR entry.
    pub open spec fn hir_ok(&self, id: u64, e: MemoEntry) -> bool {
        &&& (e.handle as int) < self.arena_view().len()
        &&& deps_bounded(e.deps@, self.revision())
        &&& (self.entry_fresh(e) ==> {
            &&& dep_keys(e.deps@) == unit_reach(self.data(), id)
            &&& match self.arena_view()[e.handle as int] {
                IrValue::Hir(v) => eval_hir(self.data(), id) == Ok::<
                    WithMeta<Expr>,
                    StageError,
                >(v),
                _ => false,
            }
        })
    }

    /// A coherent typed-IR entry.
    pub open spec fn thir_ok(&self, id: u64, e: MemoEntry) -> bool {
        &&& (e.handle as int) < self.arena_view().len()
        &&& deps_bounded(e.deps@, self.revision())
        &&& (self.entry_fresh(e) ==> {
            &&& dep_keys(e.deps@) == unit_reach(self.data(), id)
            &&& match self.arena_view()[e.handle as int] {
                IrValue::Thir(v) => eval_thir(self.data(), id) == Ok::<TypedHir, StageError>(v),
                _ => false,
            }
        })
    }

    /// A coherent administrative-normal-form entry.
    pub open spec fn amir_ok(&self, id: u64, e: MemoEntry) -> bool {
        &&& (e.handle as int) < self.arena_view().len()
        &&& deps_bounded(e.deps@, self.revision())
        &&& (self.entry_fresh(e) ==> {
            &&& dep_keys(e.deps@) == unit_reach(self.data(), id)
            &&& match self.arena_view()[e.handle as int] {
                IrValue::Amir(v) => eval_amir(self.data(), id) == Ok::<Amirs, StageError>(v),
                _ => false,
            }
        })
    }

    /// A coherent mid-level-IR entry.
    pub open spec fn mir_ok(&self, id: u64, e: MemoEntry) -> bool {
        &&& (e.handle as int) < self.arena_view().len()
        &&& deps_bounded(e.deps@, self.revision())
        &&& (self.entry_fresh(e) ==> {
            &&& dep_keys(e.deps@) == unit_reach(self.data(), id)
            &&& match self.arena_view()[e.handle as int] {
                IrValue::Mir(v) => eval_mir(self.data(), id) == Ok::<Mirs, StageError>(v),
                _ => false,
            }
        })
    }

    /// A coherent execution-context entry.
    pub open spec fn env_ok(&self, id: u64, e: MemoEntry) -> bool {
        &&& (e.handle as int) < self.arena_view().len()
        &&& deps_bounded(e.deps@, self.revision())
        &&& (self.entry_fresh(e) ==> {
            &&& dep_keys(e.deps@) == unit_reach(self.data(), id)
            &&& match self.arena_view()[e.handle as int] {
                IrValue::Env(v) => eval_env(self.data(), id) == Ok::<Environment, StageError>(v),
                _ => false,
            }
        })
    }

    /// The engine's invariant: the stamp outruns every epoch, and every
    /// memoized entry is coherent.
    pub open spec fn wf(&self) -> bool {
        &&& self.revision() >= 1
        &&& (forall|k: u64|
            self.eps().contains_key(k) ==> #[trigger] self.eps()[k] < self.revision())
        &&& (forall|id: u64|
            #[trigger] self.memos().build.contains_key(id) ==> self.build_ok(
                id,
                self.memos().build[id],
            ))
        &&& (forall|id: u64|
            #[trigger] self.memos().ast.contains_key(id) ==> self.ast_ok(
                id,
                self.memos().ast[id],
            ))
        &&& (forall|id: u64|
            #[trigger] self.memos().hir.contains_key(id) ==> self.hir_ok(
                id,
                self.memos().hir[id],
            ))
        &&& (forall|id: u64|
            #[trigger] self.memos().thir.contains_key(id) ==> self.thir_ok(
                id,
                self.memos().thir[id],
            ))
        &&& (forall|id: u64|
            #[trigger] self.memos().amir.contains_key(id) ==> self.amir_ok(
                id,
                self.memos().amir[id],
            ))
        &&& (forall|id: u64|
            #[trigger] self.memos().mir.contains_key(id) ==> self.mir_ok(
                id,
                self.memos().mir[id],
            ))
        &&& (forall|id: u64|
            #[trigger] self.memos().env.contains_key(id) ==> self.env_ok(
                id,
                self.memos().env[id],
            ))
    }

    /// An empty document index with an empty cache.
    pub fn new() -> (r: KernelQueries)
        ensures
            r.wf(),
            r.doc() == (DocView {
                data: Map::<u64, NodeRecord>::empty(),
                epochs: Map::<u64, u64>::empty(),
                rev: 1u64,
            }),
            r.arena_view() == Seq::<IrValue>::empty(),
            r.memos() == (MemoView {
                build: Map::<u64, MemoEntry>::empty(),
                ast: Map::<u64, MemoEntry>::empty(),
                hir: Map::<u64, MemoEntry>::empty(),
                thir: Map::<u64, MemoEntry>::empty(),
                amir: Map::<u64, MemoEntry>::empty(),
                mir: Map::<u64, MemoEntry>::empty(),
                env: Map::<u64, MemoEntry>::empty(),
            }),
            r.stamps() == 0,
    {
        KernelQueries {
            nodes: HashMap::new(),
            epochs: HashMap::new(),
            rev: 1,
            ticks: 0,
            memo_build: HashMap::new(),
            memo_ast: HashMap::new(),
            memo_hir: HashMap::new(),
            memo_thir: HashMap::new(),
            memo_amir: HashMap::new(),
            memo_mir: HashMap::new(),
            memo_env: HashMap::new(),
            arena: Vec::new(),
        }
    }

    /// The current epoch of a node's inputs.
    fn epoch_lookup(&self, k: u64) -> (r: u64)
        ensures
            r == epoch_of(self.eps(), k),
    {
        match self.epochs.get(&k) {
            Some(e) => *e,
            None => 0,
        }
    }

    /// Whether every recorded epoch is still current.
    fn deps_fresh_exec(&self, deps: &Vec<(u64, u64)>) -> (r: bool)
        ensures
            r == deps_fresh(self.eps(), deps@),
    {
        let mut i: usize = 0;
        while i < deps.len()
            invariant
                i <= deps@.len(),
                forall|j: int| 0 <= j < i ==> #[trigger] deps@[j].1 == epoch_of(self.eps(), deps@[j].0),
            decreases deps@.len() - i,
        {
            let (k, ep): (u64, u64) = deps[i];
            let cur = self.epoch_lookup(k);
            if cur != ep {
                return false;
            }
            i += 1;
        }
        true
    }

    /// A fresh stamp for a failure: the counter's value, with the counter
    /// advanced — monotonically, saturating only at exhaustion — so that
    /// each failure is distinguishable from every earlier one.
    fn tick(&mut self) -> (r: u64)
        ensures
            final(self).doc() == old(self).doc(),
            final(self).memos() == old(self).memos(),
            final(self).arena_view() == old(self).arena_view(),
            old(self).wf() ==> final(self).wf(),
            r == old(self).stamps(),
            final(self).stamps() == (if old(self).stamps() == u64::MAX {
                u64::MAX
            } else {
                (old(self).stamps() + 1) as u64
            }),
    {
        let t = self.ticks;
        if self.ticks < u64::MAX {
            self.ticks = self.ticks + 1;
        }
        t
    }
}

/// A value-preserving copy of a dependency list.
fn copy_deps(v: &Vec<(u64, u64)>) -> (r: Vec<(u64, u64)>)
    ensures
        r@ == v@,
{
    let mut out: Vec<(u64, u64)> = Vec::new();
    let mut i: usize = 0;
    while i < v.len()
        invariant
            i <= v@.len(),
            out@ == v@.subrange(0, i as int),
        decreases v@.len() - i,
    {
        out.push(v[i]);
        proof {
            assert(out@ =~= v@.subrange(0, i + 1));
        }
        i += 1;
    }
    proof {
        assert(v@.subrange(0, v@.len() as int) =~= v@);
    }
    out
}

/// Whether `v` holds `x`.
fn contains_u64(v: &Vec<u64>, x: u64) -> (r: bool)
    ensures
        r == v@.contains(x),
{
    let mut i: usize = 0;
    while i < v.len()
        invariant
            i <= v@.len(),
            forall|j: int| 0 <= j < i ==> v@[j] != x,
        decreases v@.len() - i,
    {
        if v[i] == x {
            assert(v@[i as int] == x);
            return true;
        }
        i += 1;
    }
    false
}

/// A cached entry whose node survives a write to `n` unchanged keeps its
/// meaning: its recorded inputs cannot name `n`, so the assembly it stands
/// for reads only untouched inputs.
proof fn lemma_entry_survives_write(
    data1: Map<u64, NodeRecord>,
    data2: Map<u64, NodeRecord>,
    eps1: Map<u64, u64>,
    eps2: Map<u64, u64>,
    rev1: u64,
    n: u64,
    id: u64,
    deps: Seq<(u64, u64)>,
)
    requires
        data1.dom().finite(),
        data2.dom().finite(),
        forall|k: u64|
            k != n ==> ((#[trigger] data2.contains_key(k)) == data1.contains_key(k) && (
            data1.contains_key(k) ==> data2[k] == data1[k])),
        forall|k: u64| k != n ==> #[trigger] epoch_of(eps2, k) == epoch_of(eps1, k),
        epoch_of(eps2, n) == rev1,
        deps_bounded(deps, rev1),
        deps_fresh(eps1, deps) ==> dep_keys(deps) == unit_reach(data1, id),
    ensures
        deps_fresh(eps2, deps) ==> {
            &&& deps_fresh(eps1, deps)
            &&& unit_reach(data2, id) == unit_reach(data1, id)
            &&& eval_build(data2, id) == eval_build(data1, id)
            &&& eval_ast(data2, id) == eval_ast(data1, id)
            &&& eval_hir(data2, id) == eval_hir(data1, id)
            &&& eval_thir(data2, id) == eval_thir(data1, id)
            &&& eval_amir(data2, id) == eval_amir(data1, id)
            &&& eval_mir(data2, id) == eval_mir(data1, id)
            &&& eval_env(data2, id) == eval_env(data1, id)
        },
{
    broadcast use vstd::set::group_set_axioms;

    if deps_fresh(eps2, deps) {
        assert forall|i: int| 0 <= i < deps.len() implies deps[i].0 != n by {
            if deps[i].0 == n {
                assert(deps[i].1 == epoch_of(eps2, deps[i].0));
                assert(deps[i].1 < rev1);
            }
        }
        assert forall|i: int|
            0 <= i < deps.len() implies #[trigger] deps[i].1 == epoch_of(eps1, deps[i].0) by {
            assert(deps[i].1 == epoch_of(eps2, deps[i].0));
            assert(deps[i].0 != n);
        }
        assert(deps_fresh(eps1, deps));
        assert(dep_keys(deps) == unit_reach(data1, id));
        assert(spec_agree(data1, data2, unit_reach(data1, id))) by {
            assert forall|k: u64|
                unit_reach(data1, id).contains(k) implies (data1.contains_key(k)
                == data2.contains_key(k) && (data1.contains_key(k) ==> data1[k] == data2[k])) by {
                assert(dep_keys(deps).contains(k));
                let i = choose|i: int| 0 <= i < deps.len() && deps[i].0 == k;
                assert(deps[i].0 != n);
                assert(k != n);
                assert(data2.contains_key(k) == data1.contains_key(k));
                assert(data1.contains_key(k) ==> data2[k] == data1[k]);
            }
        }
        lemma_assemble_frame(data1, data2, id, Set::empty());
    }
}

impl KernelQueries {
    /// Applies one write to node `n`: the epoch bump — with a cache wipe at
    /// stamp exhaustion — and the record change itself.
    fn apply_write(&mut self, n: u64, new_rec: Option<NodeRecord>)
        requires
            old(self).wf(),
        ensures
            final(self).wf(),
            final(self).data() == (match new_rec {
                Some(r) => old(self).data().insert(n, r),
                None => old(self).data(),
            }),
            final(self).eps() == (if old(self).revision() == u64::MAX {
                Map::<u64, u64>::empty().insert(n, 1u64)
            } else {
                old(self).eps().insert(n, old(self).revision())
            }),
            final(self).revision() == (if old(self).revision() == u64::MAX {
                2u64
            } else {
                (old(self).revision() + 1) as u64
            }),
            final(self).arena_view() == old(self).arena_view(),
            old(self).revision() < u64::MAX ==> final(self).memos() == old(self).memos(),
            final(self).stamps() == old(self).stamps(),
    {
        let ghost pre = *self;
        if self.rev == u64::MAX {
            self.memo_build.clear();
            self.memo_ast.clear();
            self.memo_hir.clear();
            self.memo_thir.clear();
            self.memo_amir.clear();
            self.memo_mir.clear();
            self.memo_env.clear();
            self.epochs.clear();
            self.rev = 1;
        }
        let stamp = self.rev;
        self.epochs.insert(n, stamp);
        self.rev = self.rev + 1;
        match new_rec {
            Some(r) => {
                self.nodes.insert(n, r);
            },
            None => {},
        }
        proof {
            if pre.revision() == u64::MAX {
                assert(self.eps() =~= Map::<u64, u64>::empty().insert(n, 1u64));
                assert(self.wf());
            } else {
                let rev1 = pre.revision();
                assert forall|id: u64|
                    #[trigger] self.memos().build.contains_key(id) implies self.build_ok(
                    id,
                    self.memos().build[id],
                ) by {
                    let e = self.memos().build[id];
                    assert(pre.memos().build == self.memos().build);
                    assert(pre.memos().build.contains_key(id));
                    assert(pre.build_ok(id, e));
                    lemma_entry_survives_write(
                        pre.data(),
                        self.data(),
                        pre.eps(),
                        self.eps(),
                        rev1,
                        n,
                        id,
                        e.deps@,
                    );
                }
                assert forall|id: u64|
                    #[trigger] self.memos().ast.contains_key(id) implies self.ast_ok(
                    id,
                    self.memos().ast[id],
                ) by {
                    let e = self.memos().ast[id];
                    assert(pre.memos().ast == self.memos().ast);
                    assert(pre.memos().ast.contains_key(id));
                    assert(pre.ast_ok(id, e));
                    lemma_entry_survives_write(
                        pre.data(),
                        self.data(),
                        pre.eps(),
                        self.eps(),
                        rev1,
                        n,
                        id,
                        e.deps@,
                    );
                }
                assert forall|id: u64|
                    #[trigger] self.memos().hir.contains_key(id) implies self.hir_ok(
                    id,
                    self.memos().hir[id],
                ) by {
                    let e = self.memos().hir[id];
                    assert(pre.memos().hir == self.memos().hir);
                    assert(pre.memos().hir.contains_key(id));
                    assert(pre.hir_ok(id, e));
                    lemma_entry_survives_write(
                        pre.data(),
                        self.data(),
                        pre.eps(),
                        self.eps(),
                        rev1,
                        n,
                        id,
                        e.deps@,
                    );
                }
                assert forall|id: u64|
                    #[trigger] self.memos().thir.contains_key(id) implies self.thir_ok(
                    id,
                    self.memos().thir[id],
                ) by {
                    let e = self.memos().thir[id];
                    assert(pre.memos().thir == self.memos().thir);
                    assert(pre.memos().thir.contains_key(id));
                    assert(pre.thir_ok(id, e));
                    lemma_entry_survives_write(
                        pre.data(),
                        self.data(),
                        pre.eps(),
                        self.eps(),
                        rev1,
                        n,
                        id,
                        e.deps@,
                    );
                }
                assert forall|id: u64|
                    #[trigger] self.memos().amir.contains_key(id) implies self.amir_ok(
                    id,
                    self.memos().amir[id],
                ) by {
                    let e = self.memos().amir[id];
                    assert(pre.memos().amir == self.memos().amir);
                    assert(pre.memos().amir.contains_key(id));
                    assert(pre.amir_ok(id, e));
                    lemma_entry_survives_write(
                        pre.data(),
                        self.data(),
                        pre.eps(),
                        self.eps(),
                        rev1,
                        n,
                        id,
                        e.deps@,
                    );
                }
                assert forall|id: u64|
                    #[trigger] self.memos().mir.contains_key(id) implies self.mir_ok(
                    id,
                    self.memos().mir[id],
                ) by {
                    let e = self.memos().mir[id];
                    assert(pre.memos().mir == self.memos().mir);
                    assert(pre.memos().mir.contains_key(id));
                    assert(pre.mir_ok(id, e));
                    lemma_entry_survives_write(
                        pre.data(),
                        self.data(),
                        pre.eps(),
                        self.eps(),
                        rev1,
                        n,
                        id,
                        e.deps@,
                    );
                }
                assert forall|id: u64|
                    #[trigger] self.memos().env.contains_key(id) implies self.env_ok(
                    id,
                    self.memos().env[id],
                ) by {
                    let e = self.memos().env[id];
                    assert(pre.memos().env == self.memos().env);
                    assert(pre.memos().env.contains_key(id));
                    assert(pre.env_ok(id, e));
                    lemma_entry_survives_write(
                        pre.data(),
                        self.data(),
                        pre.eps(),
                        self.eps(),
                        rev1,
                        n,
                        id,
                        e.deps@,
                    );
                }
                assert forall|k: u64|
                    self.eps().contains_key(k) implies #[trigger] self.eps()[k]
                    < self.revision() by {
                    if k != n {
                        assert(pre.eps().contains_key(k));
                        assert(pre.eps()[k] < rev1);
                    }
                }
            }
        }
    }

    /// Applies one admitted event to the primitive inputs. Every memoized
    /// result whose inputs the event touches silently loses its freshness;
    /// nothing else changes.
    pub fn handle_event(&mut self, event: &Event)
        requires
            old(self).wf(),
        ensures
            final(self).wf(),
            final(self).doc() == doc_step(old(self).doc(), *event),
            final(self).arena_view() == old(self).arena_view(),
            (event.written_node() is None || old(self).revision() < u64::MAX)
                ==> final(self).memos() == old(self).memos(),
            final(self).stamps() == old(self).stamps(),
    {
        match event {
            Event::AddNode { node_id, content, .. } => {
                let rec = NodeRecord {
                    content: content.clone(),
                    children: IdList::Nil,
                    attributes: AttrList::Nil,
                    visible: true,
                };
                self.apply_write(node_id.0, Some(rec));
            },
            Event::RemoveNode { node_id } => {
                let upd: Option<NodeRecord> = match self.nodes.get(&node_id.0) {
                    Some(rec) => {
                        let mut nr = rec.clone();
                        nr.visible = false;
                        Some(nr)
                    },
                    None => None,
                };
                self.apply_write(node_id.0, upd);
            },
            Event::PatchContent { node_id, patch } => {
                let upd: Option<NodeRecord> = match self.nodes.get(&node_id.0) {
                    Some(rec) => match patch {
                        ContentPatch::Replace { content } => Some(
                            NodeRecord {
                                content: content.clone(),
                                children: rec.children.clone(),
                                attributes: rec.attributes.clone(),
                                visible: rec.visible,
                            },
                        ),
                    },
                    None => None,
                };
                self.apply_write(node_id.0, upd);
            },
            Event::PatchChildren { node_id, patch } => {
                let upd: Option<NodeRecord> = match self.nodes.get(&node_id.0) {
                    Some(rec) => {
                        let children = match patch {
                            ChildrenPatch::Insert { index, node } => rec.children.insert_at(
                                *index,
                                *node,
                            ),
                            ChildrenPatch::Remove { index } => rec.children.remove_at(*index),
                            ChildrenPatch::Move { index, to } => rec.children.move_to(*index, *to),
                        };
                        Some(
                            NodeRecord {
                                content: rec.content.clone(),
                                children,
                                attributes: rec.attributes.clone(),
                                visible: rec.visible,
                            },
                        )
                    },
                    None => None,
                };
                self.apply_write(node_id.0, upd);
            },
            Event::PatchAttribute { node_id, patch } => {
                let upd: Option<NodeRecord> = match self.nodes.get(&node_id.0) {
                    Some(rec) => {
                        let attributes = match patch {
                            AttributePatch::Update { key, value } => rec.attributes.update(
                                *key,
                                value,
                            ),
                            AttributePatch::Remove { key } => rec.attributes.remove(*key),
                        };
                        Some(
                            NodeRecord {
                                content: rec.content.clone(),
                                children: rec.children.clone(),
                                attributes,
                                visible: rec.visible,
                            },
                        )
                    },
                    None => None,
                };
                self.apply_write(node_id.0, upd);
            },
            _ => {},
        }
    }
}

/// Arena growth and untouched inputs keep every carried-over entry
/// coherent; a table may also gain entries that are already coherent.
proof fn lemma_wf_preserved_on_growth(pre: KernelQueries, post: KernelQueries)
    requires
        pre.wf(),
        post.data() == pre.data(),
        post.eps() == pre.eps(),
        post.revision() == pre.revision(),
        post.arena_view().len() >= pre.arena_view().len(),
        forall|j: int|
            0 <= j < pre.arena_view().len() ==> post.arena_view()[j] == pre.arena_view()[j],
        forall|id: u64|
            #[trigger] post.memos().build.contains_key(id) ==> ((pre.memos().build.contains_key(
                id,
            ) && post.memos().build[id] == pre.memos().build[id]) || post.build_ok(
                id,
                post.memos().build[id],
            )),
        forall|id: u64|
            #[trigger] post.memos().ast.contains_key(id) ==> ((pre.memos().ast.contains_key(id)
                && post.memos().ast[id] == pre.memos().ast[id]) || post.ast_ok(
                id,
                post.memos().ast[id],
            )),
        forall|id: u64|
            #[trigger] post.memos().hir.contains_key(id) ==> ((pre.memos().hir.contains_key(id)
                && post.memos().hir[id] == pre.memos().hir[id]) || post.hir_ok(
                id,
                post.memos().hir[id],
            )),
        forall|id: u64|
            #[trigger] post.memos().thir.contains_key(id) ==> ((pre.memos().thir.contains_key(
                id,
            ) && post.memos().thir[id] == pre.memos().thir[id]) || post.thir_ok(
                id,
                post.memos().thir[id],
            )),
        forall|id: u64|
            #[trigger] post.memos().amir.contains_key(id) ==> ((pre.memos().amir.contains_key(
                id,
            ) && post.memos().amir[id] == pre.memos().amir[id]) || post.amir_ok(
                id,
                post.memos().amir[id],
            )),
        forall|id: u64|
            #[trigger] post.memos().mir.contains_key(id) ==> ((pre.memos().mir.contains_key(id)
                && post.memos().mir[id] == pre.memos().mir[id]) || post.mir_ok(
                id,
                post.memos().mir[id],
            )),
        forall|id: u64|
            #[trigger] post.memos().env.contains_key(id) ==> ((pre.memos().env.contains_key(id)
                && post.memos().env[id] == pre.memos().env[id]) || post.env_ok(
                id,
                post.memos().env[id],
            )),
    ensures
        post.wf(),
{
    assert forall|id: u64|
        #[trigger] post.memos().build.contains_key(id) implies post.build_ok(
        id,
        post.memos().build[id],
    ) by {
        if pre.memos().build.contains_key(id) && post.memos().build[id] == pre.memos().build[id] {
            assert(pre.build_ok(id, pre.memos().build[id]));
        }
    }
    assert forall|id: u64|
        #[trigger] post.memos().ast.contains_key(id) implies post.ast_ok(
        id,
        post.memos().ast[id],
    ) by {
        if pre.memos().ast.contains_key(id) && post.memos().ast[id] == pre.memos().ast[id] {
            assert(pre.ast_ok(id, pre.memos().ast[id]));
        }
    }
    assert forall|id: u64|
        #[trigger] post.memos().hir.contains_key(id) implies post.hir_ok(
        id,
        post.memos().hir[id],
    ) by {
        if pre.memos().hir.contains_key(id) && post.memos().hir[id] == pre.memos().hir[id] {
            assert(pre.hir_ok(id, pre.memos().hir[id]));
        }
    }
    assert forall|id: u64|
        #[trigger] post.memos().thir.contains_key(id) implies post.thir_ok(
        id,
        post.memos().thir[id],
    ) by {
        if pre.memos().thir.contains_key(id) && post.memos().thir[id] == pre.memos().thir[id] {
            assert(pre.thir_ok(id, pre.memos().thir[id]));
        }
    }
    assert forall|id: u64|
        #[trigger] post.memos().amir.contains_key(id) implies post.amir_ok(
        id,
        post.memos().amir[id],
    ) by {
        if pre.memos().amir.contains_key(id) && post.memos().amir[id] == pre.memos().amir[id] {
            assert(pre.amir_ok(id, pre.memos().amir[id]));
        }
    }
    assert forall|id: u64|
        #[trigger] post.memos().mir.contains_key(id) implies post.mir_ok(
        id,
        post.memos().mir[id],
    ) by {
        if pre.memos().mir.contains_key(id) && post.memos().mir[id] == pre.memos().mir[id] {
            assert(pre.mir_ok(id, pre.memos().mir[id]));
        }
    }
    assert forall|id: u64|
        #[trigger] post.memos().env.contains_key(id) implies post.env_ok(
        id,
        post.memos().env[id],
    ) by {
        if pre.memos().env.contains_key(id) && post.memos().env[id] == pre.memos().env[id] {
            assert(pre.env_ok(id, pre.memos().env[id]));
        }
    }
}

impl KernelQueries {
    /// Recursive assembly walk. `visiting` is the in-flight ancestor stack
    /// guarding against cycles; `deps` collects every primitive input read,
    /// stamped with its current epoch.
    fn assemble_exec(&self, id: u64, visiting: &mut Vec<u64>, deps: &mut Vec<(u64, u64)>) -> (r:
        Result<Node, StageError>)
        requires
            old(visiting)@.no_duplicates(),
            forall|j: int|
                0 <= j < old(visiting)@.len() ==> self.data().contains_key(
                    #[trigger] old(visiting)@[j],
                ),
        ensures
            final(visiting)@ == old(visiting)@,
            r == spec_assemble(self.data(), id, old(visiting)@.to_set()),
            final(deps)@.len() >= old(deps)@.len(),
            forall|j: int| 0 <= j < old(deps)@.len() ==> final(deps)@[j] == old(deps)@[j],
            forall|j: int|
                old(deps)@.len() <= j < final(deps)@.len() ==> (#[trigger] final(deps)@[j]).1
                    == epoch_of(self.eps(), final(deps)@[j].0),
            r is Ok ==> dep_keys(final(deps)@) == dep_keys(old(deps)@).union(
                spec_reach(self.data(), id, old(visiting)@.to_set()),
            ),
        decreases self.data().dom().difference(old(visiting)@.to_set()).len(), 0int, 0int,
    {
        let ghost vset = old(visiting)@.to_set();
        let eph = self.epoch_lookup(id);
        deps.push((id, eph));
        match self.nodes.get(&id) {
            None => Err(StageError::MissingNode(NodeId(id))),
            Some(rec) => {
                if !rec.visible {
                    Err(StageError::MissingNode(NodeId(id)))
                } else if contains_u64(visiting, id) {
                    Err(StageError::CycleDetected(NodeId(id)))
                } else {
                    let ghost vprev = visiting@;
                    let ghost dprev = deps@;
                    proof {
                        vprev.lemma_push_to_set_commute(id);
                        assert(self.data().dom().difference(vset.insert(id)) =~= self.data()
                            .dom().difference(vset).remove(id));
                        assert(self.data().dom().difference(vset).contains(id));
                        assert forall|i: int, j: int|
                            0 <= i < j < vprev.push(id).len() implies vprev.push(id)[i]
                            != vprev.push(id)[j] by {
                            if j == vprev.len() as int {
                                assert(vprev[i] == vprev.push(id)[i]);
                                if vprev[i] == id {
                                    assert(vprev.contains(id));
                                }
                            }
                        }
                    }
                    visiting.push(id);
                    let kids = self.assemble_kids_exec(&rec.children, visiting, deps);
                    visiting.pop();
                    proof {
                        assert(visiting@ =~= vprev);
                    }
                    match kids {
                        Err(e) => Err(e),
                        Ok(kidlist) => {
                            proof {
                                assert(spec_reach(self.data(), id, vset) == set![id].union(
                                    spec_reach_kids(
                                        self.data(),
                                        self.data()[id].children,
                                        vset.insert(id),
                                    ),
                                ));
                                assert(dep_keys(dprev) =~= dep_keys(old(deps)@).insert(id)) by {
                                    assert forall|k: u64|
                                        dep_keys(dprev).contains(k) == dep_keys(
                                            old(deps)@,
                                        ).insert(id).contains(k) by {
                                        if dep_keys(dprev).contains(k) {
                                            let i = choose|i: int|
                                                0 <= i < dprev.len() && dprev[i].0 == k;
                                            if i < old(deps)@.len() {
                                                assert(old(deps)@[i].0 == k);
                                            }
                                        }
                                        if dep_keys(old(deps)@).contains(k) {
                                            let i = choose|i: int|
                                                0 <= i < old(deps)@.len() && old(deps)@[i].0 == k;
                                            assert(dprev[i].0 == k);
                                        }
                                        if k == id {
                                            assert(dprev[dprev.len() - 1].0 == id);
                                        }
                                    }
                                }
                                assert(dep_keys(deps@) =~= dep_keys(old(deps)@).union(
                                    spec_reach(self.data(), id, vset),
                                ));
                            }
                            Ok(
                                Node {
                                    id: NodeId(id),
                                    content: rec.content.clone(),
                                    children: kidlist,
                                    attributes: rec.attributes.clone(),
                                },
                            )
                        },
                    }
                }
            },
        }
    }

    /// Recursive assembly of a child list.
    fn assemble_kids_exec(
        &self,
        kids: &IdList,
        visiting: &mut Vec<u64>,
        deps: &mut Vec<(u64, u64)>,
    ) -> (r: Result<NodeList, StageError>)
        requires
            old(visiting)@.no_duplicates(),
            forall|j: int|
                0 <= j < old(visiting)@.len() ==> self.data().contains_key(
                    #[trigger] old(visiting)@[j],
                ),
        ensures
            final(visiting)@ == old(visiting)@,
            r == spec_assemble_kids(self.data(), *kids, old(visiting)@.to_set()),
            final(deps)@.len() >= old(deps)@.len(),
            forall|j: int| 0 <= j < old(deps)@.len() ==> final(deps)@[j] == old(deps)@[j],
            forall|j: int|
                old(deps)@.len() <= j < final(deps)@.len() ==> (#[trigger] final(deps)@[j]).1
                    == epoch_of(self.eps(), final(deps)@[j].0),
            r is Ok ==> dep_keys(final(deps)@) == dep_keys(old(deps)@).union(
                spec_reach_kids(self.data(), *kids, old(visiting)@.to_set()),
            ),
        decreases self.data().dom().difference(old(visiting)@.to_set()).len(),
            1int,
            kids.len() as int,
    {
        match kids {
            IdList::Nil => {
                proof {
                    assert(dep_keys(deps@) =~= dep_keys(old(deps)@).union(Set::empty()));
                }
                Ok(NodeList::Nil)
            },
            IdList::Cons(h, t) => {
                let hn = self.assemble_exec(h.0, visiting, deps);
                match hn {
                    Err(e) => Err(e),
                    Ok(n) => {
                        let tn = self.assemble_kids_exec(t, visiting, deps);
                        match tn {
                            Err(e) => Err(e),
                            Ok(rest) => {
                                proof {
                                    assert(dep_keys(deps@) =~= dep_keys(old(deps)@).union(
                                        spec_reach_kids(
                                            self.data(),
                                            *kids,
                                            old(visiting)@.to_set(),
                                        ),
                                    ));
                                }
                                Ok(NodeList::Cons(Box::new(n), Box::new(rest)))
                            },
                        }
                    },
                }
            },
        }
    }

    /// The assembled node of a unit: memoized by unit, recomputed only when
    /// a primitive input it read has changed. A fresh cached result is
    /// returned as the identical arena handle, without recomputation.
    pub fn build_ast(&mut self, id: NodeId) -> (r: KernelResult<usize>)
        requires
            old(self).wf(),
        ensures
            final(self).wf(),
            final(self).doc() == old(self).doc(),
            final(self).arena_view().len() >= old(self).arena_view().len(),
            forall|j: int|
                0 <= j < old(self).arena_view().len() ==> final(self).arena_view()[j] == old(
                    self,
                ).arena_view()[j],
            keeps_other_units(old(self).memos(), final(self).memos(), id.0),
            match r {
                Ok(h) => {
                    &&& (h as int) < final(self).arena_view().len()
                    &&& (match final(self).arena_view()[h as int] {
                        IrValue::Ast(n) => eval_build(final(self).data(), id.0) == Ok::<
                            Node,
                            StageError,
                        >(n),
                        _ => false,
                    })
                    &&& final(self).memos().build.contains_key(id.0)
                    &&& final(self).memos().build[id.0].handle == h
                    &&& final(self).entry_fresh(final(self).memos().build[id.0])
                },
                Err(e) => eval_build(final(self).data(), id.0) == Err::<Node, StageError>(
                    e.error,
                ),
            },
            (old(self).memos().build.contains_key(id.0) && old(self).entry_fresh(
                old(self).memos().build[id.0],
            )) ==> r == Ok::<usize, KernelError>(old(self).memos().build[id.0].handle),
            (!(old(self).memos().build.contains_key(id.0) && old(self).entry_fresh(
                old(self).memos().build[id.0],
            )) && r is Ok) ==> (r matches Ok(h) && h >= old(self).arena_view().len()),
            r is Ok ==> final(self).stamps() == old(self).stamps(),
            r matches Err(e) ==> e.stamp == old(self).stamps() && final(self).stamps() == (
            if old(self).stamps() == u64::MAX {
                u64::MAX
            } else {
                (old(self).stamps() + 1) as u64
            }),
    {
        let ghost pre = *self;
        let key = id.0;
        let mut hit: Option<usize> = None;
        match self.memo_build.get(&key) {
            Some(e) => {
                if self.deps_fresh_exec(&e.deps) {
                    hit = Some(e.handle);
                }
            },
            None => {},
        }
        match hit {
            Some(h) => {
                proof {
                    assert(pre.build_ok(key, pre.memos().build[key]));
                }
                Ok(h)
            },
            None => {
                let mut visiting: Vec<u64> = Vec::new();
                let mut deps: Vec<(u64, u64)> = Vec::new();
                proof {
                    assert(visiting@.to_set() =~= Set::<u64>::empty());
                }
                let res = self.assemble_exec(key, &mut visiting, &mut deps);
                match res {
                    Ok(node) => {
                        let h = self.arena.len();
                        self.arena.push(IrValue::Ast(node));
                        self.memo_build.insert(key, MemoEntry { deps, handle: h });
                        proof {
                            let e = self.memos().build[key];
                            assert(dep_keys(e.deps@) =~= unit_reach(self.data(), key)) by {
                                assert(dep_keys(Seq::<(u64, u64)>::empty()) =~= Set::<
                                    u64,
                                >::empty());
                                assert(dep_keys(e.deps@) =~= Set::<u64>::empty().union(
                                    unit_reach(self.data(), key),
                                ));
                            }
                            assert(deps_bounded(e.deps@, self.revision())) by {
                                assert forall|i: int|
                                    0 <= i < e.deps@.len() implies #[trigger] e.deps@[i].1
                                    < self.revision() by {
                                    assert(e.deps@[i].1 == epoch_of(self.eps(), e.deps@[i].0));
                                    if self.eps().contains_key(e.deps@[i].0) {
                                        assert(self.eps()[e.deps@[i].0] < self.revision());
                                    }
                                }
                            }
                            assert(self.build_ok(key, e));
                            lemma_wf_preserved_on_growth(pre, *self);
                        }
                        Ok(h)
                    },
                    Err(kind) => {
                        let st = self.tick();
                        Err(KernelError { error: kind, stamp: st })
                    },
                }
            },
        }
    }
}

impl KernelQueries {
    /// The parse tree of a unit, memoized like `build_ast`.
    pub fn ast(&mut self, id: NodeId) -> (r: KernelResult<usize>)
        requires
            old(self).wf(),
        ensures
            final(self).wf(),
            final(self).doc() == old(self).doc(),
            final(self).arena_view().len() >= old(self).arena_view().len(),
            forall|j: int|
                0 <= j < old(self).arena_view().len() ==> final(self).arena_view()[j] == old(
                    self,
                ).arena_view()[j],
            keeps_other_units(old(self).memos(), final(self).memos(), id.0),
            match r {
                Ok(h) => {
                    &&& (h as int) < final(self).arena_view().len()
                    &&& (match final(self).arena_view()[h as int] {
                        IrValue::Parse(v) => eval_ast(final(self).data(), id.0) == Ok::<
                            Spanned<AstExpr>,
                            StageError,
                        >(v),
                        _ => false,
                    })
                    &&& final(self).memos().ast.contains_key(id.0)
                    &&& final(self).memos().ast[id.0].handle == h
                    &&& final(self).entry_fresh(final(self).memos().ast[id.0])
                },
                Err(e) => eval_ast(final(self).data(), id.0) == Err::<Spanned<AstExpr>, StageError>(e.error),
            },
            (old(self).memos().ast.contains_key(id.0) && old(self).entry_fresh(
                old(self).memos().ast[id.0],
            )) ==> r == Ok::<usize, KernelError>(old(self).memos().ast[id.0].handle),
            (!(old(self).memos().ast.contains_key(id.0) && old(self).entry_fresh(
                old(self).memos().ast[id.0],
            )) && r is Ok) ==> (r matches Ok(h) && h >= old(self).arena_view().len()),
            r is Ok ==> final(self).stamps() == old(self).stamps(),
            r matches Err(e) ==> e.stamp == old(self).stamps() && final(self).stamps() == (
            if old(self).stamps() == u64::MAX {
                u64::MAX
            } else {
                (old(self).stamps() + 1) as u64
            }),
    {
        let ghost pre0 = *self;
        let key = id.0;
        let mut hit: Option<usize> = None;
        match self.memo_ast.get(&key) {
            Some(e) => {
                if self.deps_fresh_exec(&e.deps) {
                    hit = Some(e.handle);
                }
            },
            None => {},
        }
        match hit {
            Some(h) => {
                proof {
                    assert(pre0.ast_ok(key, pre0.memos().ast[key]));
                }
                Ok(h)
            },
            None => {
                let ph = match self.build_ast(id) {
                    Ok(h) => h,
                    Err(e) => {
                        return Err(e);
                    },
                };
                let ghost mid = *self;
                let deps = match self.memo_build.get(&key) {
                    Some(e) => copy_deps(&e.deps),
                    None => {
                        proof {
                            assert(false);
                        }
                        Vec::new()
                    },
                };
                let value = match &self.arena[ph] {
                    IrValue::Ast(v) => crate::ir::node_to_ast(v),
                    _ => {
                        proof {
                            assert(false);
                        }
                        vstd::pervasive::unreached()
                    },
                };
                let h = self.arena.len();
                self.arena.push(IrValue::Parse(value));
                self.memo_ast.insert(key, MemoEntry { deps, handle: h });
                proof {
                    let e = self.memos().ast[key];
                    assert(mid.build_ok(key, mid.memos().build[key]));
                    assert(self.ast_ok(key, e));
                    lemma_wf_preserved_on_growth(mid, *self);
                    assert(keeps_other_units(pre0.memos(), self.memos(), key));
                }
                Ok(h)
            },
        }
    }

    /// The high-level IR of a unit, memoized like `build_ast`.
    pub fn hir(&mut self, id: NodeId) -> (r: KernelResult<usize>)
        requires
            old(self).wf(),
        ensures
            final(self).wf(),
            final(self).doc() == old(self).doc(),
            final(self).arena_view().len() >= old(self).arena_view().len(),
            forall|j: int|
                0 <= j < old(self).arena_view().len() ==> final(self).arena_view()[j] == old(
                    self,
                ).arena_view()[j],
            keeps_other_units(old(self).memos(), final(self).memos(), id.0),
            match r {
                Ok(h) => {
                    &&& (h as int) < final(self).arena_view().len()
                    &&& (match final(self).arena_view()[h as int] {
                        IrValue::Hir(v) => eval_hir(final(self).data(), id.0) == Ok::<
                            WithMeta<Expr>,
                            StageError,
                        >(v),
                        _ => false,
                    })
                    &&& final(self).memos().hir.contains_key(id.0)
                    &&& final(self).memos().hir[id.0].handle == h
                    &&& final(self).entry_fresh(final(self).memos().hir[id.0])
                },
                Err(e) => eval_hir(final(self).data(), id.0) == Err::<WithMeta<Expr>, StageError>(e.error),
            },
            (old(self).memos().hir.contains_key(id.0) && old(self).entry_fresh(
                old(self).memos().hir[id.0],
            )) ==> r == Ok::<usize, KernelError>(old(self).memos().hir[id.0].handle),
            (!(old(self).memos().hir.contains_key(id.0) && old(self).entry_fresh(
                old(self).memos().hir[id.0],
            )) && r is Ok) ==> (r matches Ok(h) && h >= old(self).arena_view().len()),
            r is Ok ==> final(self).stamps() == old(self).stamps(),
            r matches Err(e) ==> e.stamp == old(self).stamps() && final(self).stamps() == (
            if old(self).stamps() == u64::MAX {
                u64::MAX
            } else {
                (old(self).stamps() + 1) as u64
            }),
    {
        let ghost pre0 = *self;
        let key = id.0;
        let mut hit: Option<usize> = None;
        match self.memo_hir.get(&key) {
            Some(e) => {
                if self.deps_fresh_exec(&e.deps) {
                    hit = Some(e.handle);
                }
            },
            None => {},
        }
        match hit {
            Some(h) => {
                proof {
                    assert(pre0.hir_ok(key, pre0.memos().hir[key]));
                }
                Ok(h)
            },
            None => {
                let ph = match self.ast(id) {
                    Ok(h) => h,
                    Err(e) => {
                        return Err(e);
                    },
                };
                let ghost mid = *self;
                let deps = match self.memo_ast.get(&key) {
                    Some(e) => copy_deps(&e.deps),
                    None => {
                        proof {
                            assert(false);
                        }
                        Vec::new()
                    },
                };
                let value = match &self.arena[ph] {
                    IrValue::Parse(v) => crate::ir::ast_to_hir(v),
                    _ => {
                        proof {
                            assert(false);
                        }
                        vstd::pervasive::unreached()
                    },
                };
                let h = self.arena.len();
                self.arena.push(IrValue::Hir(value));
                self.memo_hir.insert(key, MemoEntry { deps, handle: h });
                proof {
                    let e = self.memos().hir[key];
                    assert(mid.ast_ok(key, mid.memos().ast[key]));
                    assert(self.hir_ok(key, e));
                    lemma_wf_preserved_on_growth(mid, *self);
                    assert(keeps_other_units(pre0.memos(), self.memos(), key));
                }
                Ok(h)
            },
        }
    }

    /// The administrative-normal-form IR of a unit, memoized like `build_ast`.
    pub fn amir(&mut self, id: NodeId) -> (r: KernelResult<usize>)
        requires
            old(self).wf(),
        ensures
            final(self).wf(),
            final(self).doc() == old(self).doc(),
            final(self).arena_view().len() >= old(self).arena_view().len(),
            forall|j: int|
                0 <= j < old(self).arena_view().len() ==> final(self).arena_view()[j] == old(
                    self,
                ).arena_view()[j],
            keeps_other_units(old(self).memos(), final(self).memos(), id.0),
            match r {
                Ok(h) => {
                    &&& (h as int) < final(self).arena_view().len()
                    &&& (match final(self).arena_view()[h as int] {
                        IrValue::Amir(v) => eval_amir(final(self).data(), id.0) == Ok::<
                            Amirs,
                            StageError,
                        >(v),
                        _ => false,
                    })
                    &&& final(self).memos().amir.contains_key(id.0)
                    &&& final(self).memos().amir[id.0].handle == h
                    &&& final(self).entry_fresh(final(self).memos().amir[id.0])
                },
                Err(e) => eval_amir(final(self).data(), id.0) == Err::<Amirs, StageError>(e.error),
            },
            (old(self).memos().amir.contains_key(id.0) && old(self).entry_fresh(
                old(self).memos().amir[id.0],
            )) ==> r == Ok::<usize, KernelError>(old(self).memos().amir[id.0].handle),
            (!(old(self).memos().amir.contains_key(id.0) && old(self).entry_fresh(
                old(self).memos().amir[id.0],
            )) && r is Ok) ==> (r matches Ok(h) && h >= old(self).arena_view().len()),
            r is Ok ==> final(self).stamps() == old(self).stamps(),
            r matches Err(e) ==> e.stamp == old(self).stamps() && final(self).stamps() == (
            if old(self).stamps() == u64::MAX {
                u64::MAX
            } else {
                (old(self).stamps() + 1) as u64
            }),
    {
        let ghost pre0 = *self;
        let key = id.0;
        let mut hit: Option<usize> = None;
        match self.memo_amir.get(&key) {
            Some(e) => {
                if self.deps_fresh_exec(&e.deps) {
                    hit = Some(e.handle);
                }
            },
            None => {},
        }
        match hit {
            Some(h) => {
                proof {
                    assert(pre0.amir_ok(key, pre0.memos().amir[key]));
                }
                Ok(h)
            },
            None => {
                let ph = match self.thir(id) {
                    Ok(h) => h,
                    Err(e) => {
                        return Err(e);
                    },
                };
                let ghost mid = *self;
                let deps = match self.memo_thir.get(&key) {
                    Some(e) => copy_deps(&e.deps),
                    None => {
                        proof {
                            assert(false);
                        }
                        Vec::new()
                    },
                };
                let value = match &self.arena[ph] {
                    IrValue::Thir(v) => crate::ir::amir_of(v),
                    _ => {
                        proof {
                            assert(false);
                        }
                        vstd::pervasive::unreached()
                    },
                };
                let h = self.arena.len();
                self.arena.push(IrValue::Amir(value));
                self.memo_amir.insert(key, MemoEntry { deps, handle: h });
                proof {
                    let e = self.memos().amir[key];
                    assert(mid.thir_ok(key, mid.memos().thir[key]));
                    assert(self.amir_ok(key, e));
                    lemma_wf_preserved_on_growth(mid, *self);
                    assert(keeps_other_units(pre0.memos(), self.memos(), key));
                }
                Ok(h)
            },
        }
    }

    /// The mid-level IR of a unit, memoized like `build_ast`.
    pub fn mir(&mut self, id: NodeId) -> (r: KernelResult<usize>)
        requires
            old(self).wf(),
        ensures
            final(self).wf(),
            final(self).doc() == old(self).doc(),
            final(self).arena_view().len() >= old(self).arena_view().len(),
            forall|j: int|
                0 <= j < old(self).arena_view().len() ==> final(self).arena_view()[j] == old(
                    self,
                ).arena_view()[j],
            keeps_other_units(old(self).memos(), final(self).memos(), id.0),
            match r {
                Ok(h) => {
                    &&& (h as int) < final(self).arena_view().len()
                    &&& (match final(self).arena_view()[h as int] {
                        IrValue::Mir(v) => eval_mir(final(self).data(), id.0) == Ok::<
                            Mirs,
                            StageError,
                        >(v),
                        _ => false,
                    })
                    &&& final(self).memos().mir.contains_key(id.0)
                    &&& final(self).memos().mir[id.0].handle == h
                    &&& final(self).entry_fresh(final(self).memos().mir[id.0])
                },
                Err(e) => eval_mir(final(self).data(), id.0) == Err::<Mirs, StageError>(e.error),
            },
            (old(self).memos().mir.contains_key(id.0) && old(self).entry_fresh(
                old(self).memos().mir[id.0],
            )) ==> r == Ok::<usize, KernelError>(old(self).memos().mir[id.0].handle),
            (!(old(self).memos().mir.contains_key(id.0) && old(self).entry_fresh(
                old(self).memos().mir[id.0],
            )) && r is Ok) ==> (r matches Ok(h) && h >= old(self).arena_view().len()),
            r is Ok ==> final(self).stamps() == old(self).stamps(),
            r matches Err(e) ==> e.stamp == old(self).stamps() && final(self).stamps() == (
            if old(self).stamps() == u64::MAX {
                u64::MAX
            } else {
                (old(self).stamps() + 1) as u64
            }),
    {
        let ghost pre0 = *self;
        let key = id.0;
        let mut hit: Option<usize> = None;
        match self.memo_mir.get(&key) {
            Some(e) => {
                if self.deps_fresh_exec(&e.deps) {
                    hit = Some(e.handle);
                }
            },
            None => {},
        }
        match hit {
            Some(h) => {
                proof {
                    assert(pre0.mir_ok(key, pre0.memos().mir[key]));
                }
                Ok(h)
            },
            None => {
                let ph = match self.amir(id) {
                    Ok(h) => h,
                    Err(e) => {
                        return Err(e);
                    },
                };
                let ghost mid = *self;
                let deps = match self.memo_amir.get(&key) {
                    Some(e) => copy_deps(&e.deps),
                    None => {
                        proof {
                            assert(false);
                        }
                        Vec::new()
                    },
                };
                let value = match &self.arena[ph] {
                    IrValue::Amir(v) => crate::ir::mir_of(v),
                    _ => {
                        proof {
                            assert(false);
                        }
                        vstd::pervasive::unreached()
                    },
                };
                let h = self.arena.len();
                self.arena.push(IrValue::Mir(value));
                self.memo_mir.insert(key, MemoEntry { deps, handle: h });
                proof {
                    let e = self.memos().mir[key];
                    assert(mid.amir_ok(key, mid.memos().amir[key]));
                    assert(self.mir_ok(key, e));
                    lemma_wf_preserved_on_growth(mid, *self);
                    assert(keeps_other_units(pre0.memos(), self.memos(), key));
                }
                Ok(h)
            },
        }
    }

    /// The execution context of a unit, memoized like `build_ast`.
    pub fn execution_context(&mut self, id: NodeId) -> (r: KernelResult<usize>)
        requires
            old(self).wf(),
        ensures
            final(self).wf(),
            final(self).doc() == old(self).doc(),
            final(self).arena_view().len() >= old(self).arena_view().len(),
            forall|j: int|
                0 <= j < old(self).arena_view().len() ==> final(self).arena_view()[j] == old(
                    self,
                ).arena_view()[j],
            keeps_other_units(old(self).memos(), final(self).memos(), id.0),
            match r {
                Ok(h) => {
                    &&& (h as int) < final(self).arena_view().len()
                    &&& (match final(self).arena_view()[h as int] {
                        IrValue::Env(v) => eval_env(final(self).data(), id.0) == Ok::<
                            Environment,
                            StageError,
                        >(v),
                        _ => false,
                    })
                    &&& final(self).memos().env.contains_key(id.0)
                    &&& final(self).memos().env[id.0].handle == h
                    &&& final(self).entry_fresh(final(self).memos().env[id.0])
                },
                Err(e) => eval_env(final(self).data(), id.0) == Err::<Environment, StageError>(e.error),
            },
            (old(self).memos().env.contains_key(id.0) && old(self).entry_fresh(
                old(self).memos().env[id.0],
            )) ==> r == Ok::<usize, KernelError>(old(self).memos().env[id.0].handle),
            (!(old(self).memos().env.contains_key(id.0) && old(self).entry_fresh(
                old(self).memos().env[id.0],
            )) && r is Ok) ==> (r matches Ok(h) && h >= old(self).arena_view().len()),
            r is Ok ==> final(self).stamps() == old(self).stamps(),
            r matches Err(e) ==> e.stamp == old(self).stamps() && final(self).stamps() == (
            if old(self).stamps() == u64::MAX {
                u64::MAX
            } else {
                (old(self).stamps() + 1) as u64
            }),
    {
        let ghost pre0 = *self;
        let key = id.0;
        let mut hit: Option<usize> = None;
        match self.memo_env.get(&key) {
            Some(e) => {
                if self.deps_fresh_exec(&e.deps) {
                    hit = Some(e.handle);
                }
            },
            None => {},
        }
        match hit {
            Some(h) => {
                proof {
                    assert(pre0.env_ok(key, pre0.memos().env[key]));
                }
                Ok(h)
            },
            None => {
                let ph = match self.mir(id) {
                    Ok(h) => h,
                    Err(e) => {
                        return Err(e);
                    },
                };
                let ghost mid = *self;
                let deps = match self.memo_mir.get(&key) {
                    Some(e) => copy_deps(&e.deps),
                    None => {
                        proof {
                            assert(false);
                        }
                        Vec::new()
                    },
                };
                let value = match &self.arena[ph] {
                    IrValue::Mir(v) => crate::ir::env_of(v),
                    _ => {
                        proof {
                            assert(false);
                        }
                        vstd::pervasive::unreached()
                    },
                };
                let h = self.arena.len();
                self.arena.push(IrValue::Env(value));
                self.memo_env.insert(key, MemoEntry { deps, handle: h });
                proof {
                    let e = self.memos().env[key];
                    assert(mid.mir_ok(key, mid.memos().mir[key]));
                    assert(self.env_ok(key, e));
                    lemma_wf_preserved_on_growth(mid, *self);
                    assert(keeps_other_units(pre0.memos(), self.memos(), key));
                }
                Ok(h)
            },
        }
    }

    /// The typed IR of a unit, memoized like `build_ast`. Type checking may
    /// fail; a failure is reported to this caller alone and never cached.
    pub fn thir(&mut self, id: NodeId) -> (r: KernelResult<usize>)
        requires
            old(self).wf(),
        ensures
            final(self).wf(),
            final(self).doc() == old(self).doc(),
            final(self).arena_view().len() >= old(self).arena_view().len(),
            forall|j: int|
                0 <= j < old(self).arena_view().len() ==> final(self).arena_view()[j] == old(
                    self,
                ).arena_view()[j],
            keeps_other_units(old(self).memos(), final(self).memos(), id.0),
            match r {
                Ok(h) => {
                    &&& (h as int) < final(self).arena_view().len()
                    &&& (match final(self).arena_view()[h as int] {
                        IrValue::Thir(v) => eval_thir(final(self).data(), id.0) == Ok::<
                            TypedHir,
                            StageError,
                        >(v),
                        _ => false,
                    })
                    &&& final(self).memos().thir.contains_key(id.0)
                    &&& final(self).memos().thir[id.0].handle == h
                    &&& final(self).entry_fresh(final(self).memos().thir[id.0])
                },
                Err(e) => eval_thir(final(self).data(), id.0) == Err::<TypedHir, StageError>(
                    e.error,
                ),
            },
            (old(self).memos().thir.contains_key(id.0) && old(self).entry_fresh(
                old(self).memos().thir[id.0],
            )) ==> r == Ok::<usize, KernelError>(old(self).memos().thir[id.0].handle),
            (!(old(self).memos().thir.contains_key(id.0) && old(self).entry_fresh(
                old(self).memos().thir[id.0],
            )) && r is Ok) ==> (r matches Ok(h) && h >= old(self).arena_view().len()),
            r is Ok ==> final(self).stamps() == old(self).stamps(),
            r matches Err(e) ==> e.stamp == old(self).stamps() && final(self).stamps() == (
            if old(self).stamps() == u64::MAX {
                u64::MAX
            } else {
                (old(self).stamps() + 1) as u64
            }),
    {
        let ghost pre0 = *self;
        let key = id.0;
        let mut hit: Option<usize> = None;
        match self.memo_thir.get(&key) {
            Some(e) => {
                if self.deps_fresh_exec(&e.deps) {
                    hit = Some(e.handle);
                }
            },
            None => {},
        }
        match hit {
            Some(h) => {
                proof {
                    assert(pre0.thir_ok(key, pre0.memos().thir[key]));
                }
                Ok(h)
            },
            None => {
                let ph = match self.hir(id) {
                    Ok(h) => h,
                    Err(e) => {
                        return Err(e);
                    },
                };
                let ghost mid = *self;
                let deps = match self.memo_hir.get(&key) {
                    Some(e) => copy_deps(&e.deps),
                    None => {
                        proof {
                            assert(false);
                        }
                        Vec::new()
                    },
                };
                let checked = match &self.arena[ph] {
                    IrValue::Hir(v) => crate::ir::thir_of(v, id),
                    _ => {
                        proof {
                            assert(false);
                        }
                        vstd::pervasive::unreached()
                    },
                };
                match checked {
                    Ok(value) => {
                        let h = self.arena.len();
                        self.arena.push(IrValue::Thir(value));
                        self.memo_thir.insert(key, MemoEntry { deps, handle: h });
                        proof {
                            let e = self.memos().thir[key];
                            assert(mid.hir_ok(key, mid.memos().hir[key]));
                            assert(self.thir_ok(key, e));
                            lemma_wf_preserved_on_growth(mid, *self);
                            assert(keeps_other_units(pre0.memos(), self.memos(), key));
                        }
                        Ok(h)
                    },
                    Err(kind) => {
                        let st = self.tick();
                        Err(KernelError { error: kind, stamp: st })
                    },
                }
            },
        }
    }

    /// The assembled node an arena handle stands for.
    pub fn node_value(&self, h: usize) -> (r: Option<&Node>)
        ensures
            match r {
                Some(v) => (h as int) < self.arena_view().len() && self.arena_view()[h as int]
                    == IrValue::Ast(*v),
                None => !((h as int) < self.arena_view().len() && self.arena_view()[h as int]
                    matches IrValue::Ast(_)),
            },
    {
        if h < self.arena.len() {
            match &self.arena[h] {
                IrValue::Ast(v) => Some(v),
                _ => None,
            }
        } else {
            None
        }
    }

    /// The parse tree an arena handle stands for.
    pub fn ast_value(&self, h: usize) -> (r: Option<&Spanned<AstExpr>>)
        ensures
            match r {
                Some(v) => (h as int) < self.arena_view().len() && self.arena_view()[h as int]
                    == IrValue::Parse(*v),
                None => !((h as int) < self.arena_view().len() && self.arena_view()[h as int]
                    matches IrValue::Parse(_)),
            },
    {
        if h < self.arena.len() {
            match &self.arena[h] {
                IrValue::Parse(v) => Some(v),
                _ => None,
            }
        } else {
            None
        }
    }

    /// The high-level IR an arena handle stands for.
    pub fn hir_value(&self, h: usize) -> (r: Option<&WithMeta<Expr>>)
        ensures
            match r {
                Some(v) => (h as int) < self.arena_view().len() && self.arena_view()[h as int]
                    == IrValue::Hir(*v),
                None => !((h as int) < self.arena_view().len() && self.arena_view()[h as int]
                    matches IrValue::Hir(_)),
            },
    {
        if h < self.arena.len() {
            match &self.arena[h] {
                IrValue::Hir(v) => Some(v),
                _ => None,
            }
        } else {
            None
        }
    }

    /// The typed IR an arena handle stands for.
    pub fn thir_value(&self, h: usize) -> (r: Option<&TypedHir>)
        ensures
            match r {
                Some(v) => (h as int) < self.arena_view().len() && self.arena_view()[h as int]
                    == IrValue::Thir(*v),
                None => !((h as int) < self.arena_view().len() && self.arena_view()[h as int]
                    matches IrValue::Thir(_)),
            },
    {
        if h < self.arena.len() {
            match &self.arena[h] {
                IrValue::Thir(v) => Some(v),
                _ => None,
            }
        } else {
            None
        }
    }

    /// The administrative-normal-form IR an arena handle stands for.
    pub fn amir_value(&self, h: usize) -> (r: Option<&Amirs>)
        ensures
            match r {
                Some(v) => (h as int) < self.arena_view().len() && self.arena_view()[h as int]
                    == IrValue::Amir(*v),
                None => !((h as int) < self.arena_view().len() && self.arena_view()[h as int]
                    matches IrValue::Amir(_)),
            },
    {
        if h < self.arena.len() {
            match &self.arena[h] {
                IrValue::Amir(v) => Some(v),
                _ => None,
            }
        } else {
            None
        }
    }

    /// The mid-level IR an arena handle stands for.
    pub fn mir_value(&self, h: usize) -> (r: Option<&Mirs>)
        ensures
            match r {
                Some(v) => (h as int) < self.arena_view().len() && self.arena_view()[h as int]
                    == IrValue::Mir(*v),
                None => !((h as int) < self.arena_view().len() && self.arena_view()[h as int]
                    matches IrValue::Mir(_)),
            },
    {
        if h < self.arena.len() {
            match &self.arena[h] {
                IrValue::Mir(v) => Some(v),
                _ => None,
            }
        } else {
            None
        }
    }

    /// The execution context an arena handle stands for.
    pub fn environment_value(&self, h: usize) -> (r: Option<&Environment>)
        ensures
            match r {
                Some(v) => (h as int) < self.arena_view().len() && self.arena_view()[h as int]
                    == IrValue::Env(*v),
                None => !((h as int) < self.arena_view().len() && self.arena_view()[h as int]
                    matches IrValue::Env(_)),
            },
    {
        if h < self.arena.len() {
            match &self.arena[h] {
                IrValue::Env(v) => Some(v),
                _ => None,
            }
        } else {
            None
        }
    }

    /// The content of a visible node, if it exists.
    pub fn content(&self, id: NodeId) -> (r: Option<&Content>)
        ensures
            match r {
                Some(c) => spec_visible(self.data(), id.0) && *c == self.data()[id.0].content,
                None => !spec_visible(self.data(), id.0),
            },
    {
        match self.nodes.get(&id.0) {
            Some(rec) => if rec.visible {
                Some(&rec.content)
            } else {
                None
            },
            None => None,
        }
    }

    /// The ordered children of a visible node, if it exists.
    pub fn children(&self, id: NodeId) -> (r: Option<&IdList>)
        ensures
            match r {
                Some(c) => spec_visible(self.data(), id.0) && *c == self.data()[id.0].children,
                None => !spec_visible(self.data(), id.0),
            },
    {
        match self.nodes.get(&id.0) {
            Some(rec) => if rec.visible {
                Some(&rec.children)
            } else {
                None
            },
            None => None,
        }
    }

    /// The attributes of a visible node, if it exists.
    pub fn attributes(&self, id: NodeId) -> (r: Option<&AttrList>)
        ensures
            match r {
                Some(a) => spec_visible(self.data(), id.0) && *a == self.data()[id.0].attributes,
                None => !spec_visible(self.data(), id.0),
            },
    {
        match self.nodes.get(&id.0) {
            Some(rec) => if rec.visible {
                Some(&rec.attributes)
            } else {
                None
            },
            None => None,
        }
    }
}

} // verus!
