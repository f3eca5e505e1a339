use vstd::prelude::*;
use crate::content::{Content, DataType, DataTypeList, LinkName};
use crate::event::AttrList;
use crate::ids::NodeId;
use crate::meta::{IrId, Meta, Span, WithMeta};
use crate::ty::Type;
use crate::error::StageError;

verus! {

/// An ordered list of assembled nodes.
#[derive(Debug, PartialEq, Eq)]
pub enum NodeList {
    Nil,
    Cons(Box<Node>, Box<NodeList>),
}

/// A fully assembled node: its content together with its assembled children
/// and attributes. The output of the node-assembly stage.
#[derive(Debug, PartialEq, Eq)]
pub struct Node {
    pub id: NodeId,
    pub content: Content,
    pub children: NodeList,
    pub attributes: AttrList,
}

/// A parse-tree value paired with its source span.
#[derive(Debug, PartialEq, Eq)]
pub struct Spanned<T> {
    pub span: Span,
    pub value: T,
}

/// A parse-tree literal.
#[derive(Debug, PartialEq, Eq)]
pub enum AstLiteral {
    String(String),
    Integer(i64),
}

/// An ordered list of parse-tree expressions.
#[derive(Debug, PartialEq, Eq)]
pub enum AstExprList {
    Nil,
    Cons(Box<Spanned<AstExpr>>, Box<AstExprList>),
}

/// A parse-tree expression: the output of the parse-tree stage.
#[derive(Debug, PartialEq, Eq)]
pub enum AstExpr {
    Literal(AstLiteral),
    Apply { ty: DataType, link_name: LinkName, arguments: AstExprList },
}

/// A high-level-IR literal.
#[derive(Debug, PartialEq, Eq)]
pub enum Literal {
    String(String),
    Integer(i64),
}

/// An ordered list of high-level-IR expressions.
#[derive(Debug, PartialEq, Eq)]
pub enum ExprList {
    Nil,
    Cons(Box<WithMeta<Expr>>, Box<ExprList>),
}

/// A high-level-IR expression.
#[derive(Debug, PartialEq, Eq)]
pub enum Expr {
    Literal(Literal),
    Apply { function: WithMeta<Type>, link_name: LinkName, arguments: ExprList },
}

/// The typed high-level IR: the expression with its inferred type.
#[derive(Debug, PartialEq, Eq)]
pub struct TypedHir {
    pub ty: Type,
    pub expr: WithMeta<Expr>,
}

/// One administrative-normal-form instruction.
#[derive(Debug, PartialEq, Eq)]
pub enum AInstr {
    PushString(String),
    PushNumber(i64),
    CallFunction { ty: Type, link_name: LinkName },
}

/// An ordered instruction list.
#[derive(Debug, PartialEq, Eq)]
pub enum AInstrList {
    Nil,
    Cons(Box<AInstr>, Box<AInstrList>),
}

/// The administrative-normal-form IR: a flat instruction sequence in
/// evaluation order.
#[derive(Debug, PartialEq, Eq)]
pub struct Amirs {
    pub instructions: AInstrList,
}

/// How a block ends.
#[derive(Clone, Copy, Debug, PartialEq, Eq, Structural)]
pub enum Terminator {
    Return,
}

/// One mid-level-IR basic block.
#[derive(Debug, PartialEq, Eq)]
pub struct Block {
    pub instructions: AInstrList,
    pub terminator: Terminator,
}

/// The mid-level IR: the program as basic blocks.
#[derive(Debug, PartialEq, Eq)]
pub struct Mirs {
    pub entry: Block,
}

/// An execution context ready to run the program from its entry block.
#[derive(Debug, PartialEq, Eq)]
pub struct Environment {
    pub program: Mirs,
    pub counter: usize,
}

/// A `WithMeta` with synthesized metadata.
pub open spec fn spec_wm<T>(value: T) -> WithMeta<T> {
    WithMeta { id: IrId(0), meta: Meta { span: Span { lo: 0, hi: 0 } }, value }
}

/// Executable constructor mirroring `spec_wm`.
pub fn wm<T>(value: T) -> (r: WithMeta<T>)
    ensures
        r == spec_wm(value),
{
    WithMeta { id: IrId(0), meta: Meta { span: Span { lo: 0, hi: 0 } }, value }
}

// ---------------------------------------------------------------------------
// parse-tree stage: a pure function of the assembled node
// ---------------------------------------------------------------------------

/// The parse tree of an assembled node.
pub open spec fn spec_node_to_ast(n: Node) -> Spanned<AstExpr>
    decreases n,
{
    Spanned {
        span: Span { lo: 0, hi: 0 },
        value: match n.content {
            Content::String(s) => AstExpr::Literal(AstLiteral::String(s)),
            Content::Number(x) => AstExpr::Literal(AstLiteral::Integer(x)),
            Content::Apply { ty, link_name } => AstExpr::Apply {
                ty,
                link_name,
                arguments: spec_children_to_ast(n.children),
            },
        },
    }
}

/// The parse trees of a node's children, in order.
pub open spec fn spec_children_to_ast(l: NodeList) -> AstExprList
    decreases l,
{
    match l {
        NodeList::Nil => AstExprList::Nil,
        NodeList::Cons(h, t) => AstExprList::Cons(
            Box::new(spec_node_to_ast(*h)),
            Box::new(spec_children_to_ast(*t)),
        ),
    }
}

/// Executable parse-tree lowering, mirroring `spec_node_to_ast`.
pub fn node_to_ast(n: &Node) -> (r: Spanned<AstExpr>)
    ensures
        r == spec_node_to_ast(*n),
    decreases *n,
{
    Spanned {
        span: Span { lo: 0, hi: 0 },
        value: match &n.content {
            Content::String(s) => AstExpr::Literal(AstLiteral::String(s.clone())),
            Content::Number(x) => AstExpr::Literal(AstLiteral::Integer(*x)),
            Content::Apply { ty, link_name } => AstExpr::Apply {
                ty: ty.clone(),
                link_name: link_name.clone(),
                arguments: children_to_ast(&n.children),
            },
        },
    }
}

/// Executable child lowering, mirroring `spec_children_to_ast`.
pub fn children_to_ast(l: &NodeList) -> (r: AstExprList)
    ensures
        r == spec_children_to_ast(*l),
    decreases *l,
{
    match l {
        NodeList::Nil => AstExprList::Nil,
        NodeList::Cons(h, t) => AstExprList::Cons(
            Box::new(node_to_ast(h)),
            Box::new(children_to_ast(t)),
        ),
    }
}

// ---------------------------------------------------------------------------
// high-level-IR stage: a pure function of the parse tree
// ---------------------------------------------------------------------------

/// The curried high-level type of a meta-free content type.
pub open spec fn spec_data_type_to_hir(dt: DataType) -> WithMeta<Type>
    decreases dt, 1int,
{
    match dt {
        DataType::Number => spec_wm(Type::Number),
        DataType::String => spec_wm(Type::String),
        DataType::Function { parameters, body } => spec_curry(
            parameters,
            spec_data_type_to_hir(*body),
        ),
    }
}

/// Currying: `Function{[p, q], b}` becomes `p -> (q -> b)`.
pub open spec fn spec_curry(params: DataTypeList, body: WithMeta<Type>) -> WithMeta<Type>
    decreases params, 0int,
{
    match params {
        DataTypeList::Nil => body,
        DataTypeList::Cons(p, rest) => spec_wm(
            Type::Function {
                parameter: Box::new(spec_data_type_to_hir(*p)),
                body: Box::new(spec_curry(*rest, body)),
            },
        ),
    }
}

/// Executable type lowering, mirroring `spec_data_type_to_hir`.
pub fn data_type_to_hir(dt: &DataType) -> (r: WithMeta<Type>)
    ensures
        r == spec_data_type_to_hir(*dt),
    decreases *dt, 1int,
{
    match dt {
        DataType::Number => wm(Type::Number),
        DataType::String => wm(Type::String),
        DataType::Function { parameters, body } => {
            let b = data_type_to_hir(body);
            curry(parameters, b)
        },
    }
}

/// Executable currying, mirroring `spec_curry`.
pub fn curry(params: &DataTypeList, body: WithMeta<Type>) -> (r: WithMeta<Type>)
    ensures
        r == spec_curry(*params, body),
    decreases *params, 0int,
{
    match params {
        DataTypeList::Nil => body,
        DataTypeList::Cons(p, rest) => {
            let pt = data_type_to_hir(p);
            let rt = curry(rest, body);
            wm(Type::Function { parameter: Box::new(pt), body: Box::new(rt) })
        },
    }
}

/// The high-level IR of a parse tree.
pub open spec fn spec_ast_to_hir(a: Spanned<AstExpr>) -> WithMeta<Expr>
    decreases a,
{
    match a.value {
        AstExpr::Literal(AstLiteral::String(s)) => spec_wm(Expr::Literal(Literal::String(s))),
        AstExpr::Literal(AstLiteral::Integer(x)) => spec_wm(Expr::Literal(Literal::Integer(x))),
        AstExpr::Apply { ty, link_name, arguments } => spec_wm(
            Expr::Apply {
                function: spec_data_type_to_hir(ty),
                link_name,
                arguments: spec_args_to_hir(arguments),
            },
        ),
    }
}

/// The high-level IR of each argument, in order.
pub open spec fn spec_args_to_hir(l: AstExprList) -> ExprList
    decreases l,
{
    match l {
        AstExprList::Nil => ExprList::Nil,
        AstExprList::Cons(h, t) => ExprList::Cons(
            Box::new(spec_ast_to_hir(*h)),
            Box::new(spec_args_to_hir(*t)),
        ),
    }
}

/// Executable high-level lowering, mirroring `spec_ast_to_hir`.
pub fn ast_to_hir(a: &Spanned<AstExpr>) -> (r: WithMeta<Expr>)
    ensures
        r == spec_ast_to_hir(*a),
    decreases *a,
{
    match &a.value {
        AstExpr::Literal(AstLiteral::String(s)) => wm(Expr::Literal(Literal::String(s.clone()))),
        AstExpr::Literal(AstLiteral::Integer(x)) => wm(Expr::Literal(Literal::Integer(*x))),
        AstExpr::Apply { ty, link_name, arguments } => {
            let f = data_type_to_hir(ty);
            let args = args_to_hir(arguments);
            wm(Expr::Apply { function: f, link_name: link_name.clone(), arguments: args })
        },
    }
}

/// Executable argument lowering, mirroring `spec_args_to_hir`.
pub fn args_to_hir(l: &AstExprList) -> (r: ExprList)
    ensures
        r == spec_args_to_hir(*l),
    decreases *l,
{
    match l {
        AstExprList::Nil => ExprList::Nil,
        AstExprList::Cons(h, t) => ExprList::Cons(
            Box::new(ast_to_hir(h)),
            Box::new(args_to_hir(t)),
        ),
    }
}

// ---------------------------------------------------------------------------
// typed-IR stage: type inference and checking over the high-level IR
// ---------------------------------------------------------------------------

/// Structural type equivalence; text is compared by its characters.
pub open spec fn spec_ty_sim(a: Type, b: Type) -> bool
    decreases a,
{
    match (a, b) {
        (Type::Number, Type::Number) => true,
        (Type::String, Type::String) => true,
        (Type::Trait(x), Type::Trait(y)) => spec_tl_sim(x, y),
        (
            Type::Effectful { class: c1, ty: t1, handlers: h1 },
            Type::Effectful { class: c2, ty: t2, handlers: h2 },
        ) => spec_hl_sim(c1, c2) && spec_wm_sim(*t1, *t2) && spec_hl_sim(h1, h2),
        (
            Type::Effect { class: c1, handler: x1 },
            Type::Effect { class: c2, handler: x2 },
        ) => spec_hl_sim(c1, c2) && spec_handler_sim(*x1, *x2),
        (Type::Infer, Type::Infer) => true,
        (Type::This, Type::This) => true,
        (Type::Product(x), Type::Product(y)) => spec_tl_sim(x, y),
        (Type::Sum(x), Type::Sum(y)) => spec_tl_sim(x, y),
        (
            Type::Function { parameter: p1, body: b1 },
            Type::Function { parameter: p2, body: b2 },
        ) => spec_wm_sim(*p1, *p2) && spec_wm_sim(*b1, *b2),
        (Type::Array(x), Type::Array(y)) => spec_wm_sim(*x, *y),
        (Type::SetOf(x), Type::SetOf(y)) => spec_wm_sim(*x, *y),
        (
            Type::Let { definition: d1, body: b1 },
            Type::Let { definition: d2, body: b2 },
        ) => spec_wm_sim(*d1, *d2) && spec_wm_sim(*b1, *b2),
        (Type::Variable(i), Type::Variable(j)) => i == j,
        (
            Type::BoundedVariable { bound: x1, identifier: i1 },
            Type::BoundedVariable { bound: x2, identifier: i2 },
        ) => spec_wm_sim(*x1, *x2) && i1@ == i2@,
        _ => false,
    }
}

/// Type equivalence lifted over metadata, which must agree exactly.
pub open spec fn spec_wm_sim(a: WithMeta<Type>, b: WithMeta<Type>) -> bool
    decreases a,
{
    a.id == b.id && a.meta == b.meta && spec_ty_sim(a.value, b.value)
}

/// Pointwise type-list equivalence.
pub open spec fn spec_tl_sim(a: crate::ty::TypeList, b: crate::ty::TypeList) -> bool
    decreases a,
{
    match (a, b) {
        (crate::ty::TypeList::Nil, crate::ty::TypeList::Nil) => true,
        (crate::ty::TypeList::Cons(x, xs), crate::ty::TypeList::Cons(y, ys)) => spec_wm_sim(
            *x,
            *y,
        ) && spec_tl_sim(*xs, *ys),
        _ => false,
    }
}

/// Handler equivalence.
pub open spec fn spec_handler_sim(a: crate::ty::Handler, b: crate::ty::Handler) -> bool
    decreases a,
{
    spec_wm_sim(a.input, b.input) && spec_wm_sim(a.output, b.output)
}

/// Pointwise handler-list equivalence.
pub open spec fn spec_hl_sim(a: crate::ty::HandlerList, b: crate::ty::HandlerList) -> bool
    decreases a,
{
    match (a, b) {
        (crate::ty::HandlerList::Nil, crate::ty::HandlerList::Nil) => true,
        (crate::ty::HandlerList::Cons(x, xs), crate::ty::HandlerList::Cons(y, ys)) =>
            spec_handler_sim(*x, *y) && spec_hl_sim(*xs, *ys),
        _ => false,
    }
}

/// Executable type equivalence, mirroring `spec_ty_sim`.
pub fn ty_eq(a: &Type, b: &Type) -> (r: bool)
    ensures
        r == spec_ty_sim(*a, *b),
    decreases *a,
{
    match (a, b) {
        (Type::Number, Type::Number) => true,
        (Type::String, Type::String) => true,
        (Type::Trait(x), Type::Trait(y)) => tl_eq(x, y),
        (
            Type::Effectful { class: c1, ty: t1, handlers: h1 },
            Type::Effectful { class: c2, ty: t2, handlers: h2 },
        ) => hl_eq(c1, c2) && wm_ty_eq(t1, t2) && hl_eq(h1, h2),
        (
            Type::Effect { class: c1, handler: x1 },
            Type::Effect { class: c2, handler: x2 },
        ) => hl_eq(c1, c2) && handler_eq(x1, x2),
        (Type::Infer, Type::Infer) => true,
        (Type::This, Type::This) => true,
        (Type::Product(x), Type::Product(y)) => tl_eq(x, y),
        (Type::Sum(x), Type::Sum(y)) => tl_eq(x, y),
        (
            Type::Function { parameter: p1, body: b1 },
            Type::Function { parameter: p2, body: b2 },
        ) => wm_ty_eq(p1, p2) && wm_ty_eq(b1, b2),
        (Type::Array(x), Type::Array(y)) => wm_ty_eq(x, y),
        (Type::SetOf(x), Type::SetOf(y)) => wm_ty_eq(x, y),
        (
            Type::Let { definition: d1, body: b1 },
            Type::Let { definition: d2, body: b2 },
        ) => wm_ty_eq(d1, d2) && wm_ty_eq(b1, b2),
        (Type::Variable(i), Type::Variable(j)) => i == j,
        (
            Type::BoundedVariable { bound: x1, identifier: i1 },
            Type::BoundedVariable { bound: x2, identifier: i2 },
        ) => wm_ty_eq(x1, x2) && *i1 == *i2,
        _ => false,
    }
}

/// Executable equivalence over metadata, mirroring `spec_wm_sim`.
pub fn wm_ty_eq(a: &WithMeta<Type>, b: &WithMeta<Type>) -> (r: bool)
    ensures
        r == spec_wm_sim(*a, *b),
    decreases *a,
{
    a.id == b.id && a.meta == b.meta && ty_eq(&a.value, &b.value)
}

/// Executable type-list equivalence, mirroring `spec_tl_sim`.
pub fn tl_eq(a: &crate::ty::TypeList, b: &crate::ty::TypeList) -> (r: bool)
    ensures
        r == spec_tl_sim(*a, *b),
    decreases *a,
{
    match (a, b) {
        (crate::ty::TypeList::Nil, crate::ty::TypeList::Nil) => true,
        (crate::ty::TypeList::Cons(x, xs), crate::ty::TypeList::Cons(y, ys)) => wm_ty_eq(x, y)
            && tl_eq(xs, ys),
        _ => false,
    }
}

/// Executable handler equivalence, mirroring `spec_handler_sim`.
pub fn handler_eq(a: &crate::ty::Handler, b: &crate::ty::Handler) -> (r: bool)
    ensures
        r == spec_handler_sim(*a, *b),
    decreases *a,
{
    wm_ty_eq(&a.input, &b.input) && wm_ty_eq(&a.output, &b.output)
}

/// Executable handler-list equivalence, mirroring `spec_hl_sim`.
pub fn hl_eq(a: &crate::ty::HandlerList, b: &crate::ty::HandlerList) -> (r: bool)
    ensures
        r == spec_hl_sim(*a, *b),
    decreases *a,
{
    match (a, b) {
        (crate::ty::HandlerList::Nil, crate::ty::HandlerList::Nil) => true,
        (crate::ty::HandlerList::Cons(x, xs), crate::ty::HandlerList::Cons(y, ys)) => handler_eq(
            x,
            y,
        ) && hl_eq(xs, ys),
        _ => false,
    }
}

/// The inferred type of a high-level expression in unit `unit`.
pub open spec fn spec_infer(e: WithMeta<Expr>, unit: NodeId) -> Result<Type, StageError>
    decreases e,
{
    match e.value {
        Expr::Literal(Literal::String(_)) => Ok(Type::String),
        Expr::Literal(Literal::Integer(_)) => Ok(Type::Number),
        Expr::Apply { function, arguments, .. } => spec_check_apply(
            function.value,
            arguments,
            unit,
        ),
    }
}

/// Checks the arguments, one by one, against a curried function type and
/// yields the remaining type.
pub open spec fn spec_check_apply(t: Type, args: ExprList, unit: NodeId) -> Result<
    Type,
    StageError,
>
    decreases args,
{
    match args {
        ExprList::Nil => Ok(t),
        ExprList::Cons(a, rest) => match spec_infer(*a, unit) {
            Err(er) => Err(er),
            Ok(at) => match t {
                Type::Function { parameter, body } => if spec_ty_sim(at, parameter.value) {
                    spec_check_apply(body.value, *rest, unit)
                } else {
                    Err(StageError::ArgumentMismatch(unit))
                },
                _ => Err(StageError::NotAFunction(unit)),
            },
        },
    }
}

/// Executable inference, mirroring `spec_infer`.
pub fn infer(e: &WithMeta<Expr>, unit: NodeId) -> (r: Result<Type, StageError>)
    ensures
        r == spec_infer(*e, unit),
    decreases *e,
{
    match &e.value {
        Expr::Literal(Literal::String(_)) => Ok(Type::String),
        Expr::Literal(Literal::Integer(_)) => Ok(Type::Number),
        Expr::Apply { function, arguments, .. } => {
            let t = function.value.clone();
            check_apply(t, arguments, unit)
        },
    }
}

/// Executable argument checking, mirroring `spec_check_apply`.
pub fn check_apply(t: Type, args: &ExprList, unit: NodeId) -> (r: Result<Type, StageError>)
    ensures
        r == spec_check_apply(t, *args, unit),
    decreases *args,
{
    match args {
        ExprList::Nil => Ok(t),
        ExprList::Cons(a, rest) => match infer(a, unit) {
            Err(er) => Err(er),
            Ok(at) => match t {
                Type::Function { parameter, body } => if ty_eq(&at, &parameter.value) {
                    check_apply(body.value, rest, unit)
                } else {
                    Err(StageError::ArgumentMismatch(unit))
                },
                _ => Err(StageError::NotAFunction(unit)),
            },
        },
    }
}

/// The typed IR of a high-level expression: the expression with its
/// inferred type, or the stage error.
pub open spec fn spec_thir_of(h: WithMeta<Expr>, unit: NodeId) -> Result<TypedHir, StageError> {
    match spec_infer(h, unit) {
        Ok(t) => Ok(TypedHir { ty: t, expr: h }),
        Err(er) => Err(er),
    }
}

/// Executable typed-IR lowering, mirroring `spec_thir_of`.
pub fn thir_of(h: &WithMeta<Expr>, unit: NodeId) -> (r: Result<TypedHir, StageError>)
    ensures
        r == spec_thir_of(*h, unit),
{
    match infer(h, unit) {
        Ok(t) => Ok(TypedHir { ty: t, expr: h.clone() }),
        Err(er) => Err(er),
    }
}

// ---------------------------------------------------------------------------
// administrative-normal-form, mid-level and execution-context stages
// ---------------------------------------------------------------------------

/// Instruction-list concatenation.
pub open spec fn spec_append(a: AInstrList, b: AInstrList) -> AInstrList
    decreases a,
{
    match a {
        AInstrList::Nil => b,
        AInstrList::Cons(h, t) => AInstrList::Cons(h, Box::new(spec_append(*t, b))),
    }
}

/// The flat, evaluation-ordered instructions of an expression: arguments
/// first, then the call.
pub open spec fn spec_flatten(e: WithMeta<Expr>) -> AInstrList
    decreases e,
{
    match e.value {
        Expr::Literal(Literal::String(s)) => AInstrList::Cons(
            Box::new(AInstr::PushString(s)),
            Box::new(AInstrList::Nil),
        ),
        Expr::Literal(Literal::Integer(x)) => AInstrList::Cons(
            Box::new(AInstr::PushNumber(x)),
            Box::new(AInstrList::Nil),
        ),
        Expr::Apply { function, link_name, arguments } => spec_append(
            spec_flatten_args(arguments),
            AInstrList::Cons(
                Box::new(AInstr::CallFunction { ty: function.value, link_name }),
                Box::new(AInstrList::Nil),
            ),
        ),
    }
}

/// The concatenated instructions of each argument, in order.
pub open spec fn spec_flatten_args(l: ExprList) -> AInstrList
    decreases l,
{
    match l {
        ExprList::Nil => AInstrList::Nil,
        ExprList::Cons(h, t) => spec_append(spec_flatten(*h), spec_flatten_args(*t)),
    }
}

/// Executable concatenation, mirroring `spec_append`.
pub fn append_instrs(a: AInstrList, b: AInstrList) -> (r: AInstrList)
    ensures
        r == spec_append(a, b),
    decreases a,
{
    match a {
        AInstrList::Nil => b,
        AInstrList::Cons(h, t) => AInstrList::Cons(h, Box::new(append_instrs(*t, b))),
    }
}

/// Executable flattening, mirroring `spec_flatten`.
pub fn flatten(e: &WithMeta<Expr>) -> (r: AInstrList)
    ensures
        r == spec_flatten(*e),
    decreases *e,
{
    match &e.value {
        Expr::Literal(Literal::String(s)) => AInstrList::Cons(
            Box::new(AInstr::PushString(s.clone())),
            Box::new(AInstrList::Nil),
        ),
        Expr::Literal(Literal::Integer(x)) => AInstrList::Cons(
            Box::new(AInstr::PushNumber(*x)),
            Box::new(AInstrList::Nil),
        ),
        Expr::Apply { function, link_name, arguments } => {
            let args = flatten_args(arguments);
            let call = AInstrList::Cons(
                Box::new(
                    AInstr::CallFunction {
                        ty: function.value.clone(),
                        link_name: link_name.clone(),
                    },
                ),
                Box::new(AInstrList::Nil),
            );
            append_instrs(args, call)
        },
    }
}

/// Executable argument flattening, mirroring `spec_flatten_args`.
pub fn flatten_args(l: &ExprList) -> (r: AInstrList)
    ensures
        r == spec_flatten_args(*l),
    decreases *l,
{
    match l {
        ExprList::Nil => AInstrList::Nil,
        ExprList::Cons(h, t) => {
            let hf = flatten(h);
            let tf = flatten_args(t);
            append_instrs(hf, tf)
        },
    }
}

/// The administrative-normal-form IR of a typed expression.
pub open spec fn spec_amir_of(t: TypedHir) -> Amirs {
    Amirs { instructions: spec_flatten(t.expr) }
}

/// Executable lowering, mirroring `spec_amir_of`.
pub fn amir_of(t: &TypedHir) -> (r: Amirs)
    ensures
        r == spec_amir_of(*t),
{
    Amirs { instructions: flatten(&t.expr) }
}

/// The mid-level IR: the instructions as a single entry block that returns.
pub open spec fn spec_mir_of(a: Amirs) -> Mirs {
    Mirs { entry: Block { instructions: a.instructions, terminator: Terminator::Return } }
}

/// Executable lowering, mirroring `spec_mir_of`.
pub fn mir_of(a: &Amirs) -> (r: Mirs)
    ensures
        r == spec_mir_of(*a),
{
    Mirs {
        entry: Block {
            instructions: a.instructions.clone(),
            terminator: Terminator::Return,
        },
    }
}

/// An execution context at the program's entry.
pub open spec fn spec_env_of(m: Mirs) -> Environment {
    Environment { program: m, counter: 0 }
}

/// Executable construction, mirroring `spec_env_of`.
pub fn env_of(m: &Mirs) -> (r: Environment)
    ensures
        r == spec_env_of(*m),
{
    Environment { program: m.clone(), counter: 0 }
}

// ---------------------------------------------------------------------------
// deep copies that preserve the mathematical value
// ---------------------------------------------------------------------------

impl Clone for Literal {
    fn clone(&self) -> (r: Self)
        ensures
            r == *self,
    {
        match self {
            Literal::String(s) => Literal::String(s.clone()),
            Literal::Integer(x) => Literal::Integer(*x),
        }
    }
}

impl Clone for Expr {
    fn clone(&self) -> (r: Self)
        ensures
            r == *self,
        decreases *self,
    {
        match self {
            Expr::Literal(l) => Expr::Literal(l.clone()),
            Expr::Apply { function, link_name, arguments } => Expr::Apply {
                function: function.clone(),
                link_name: link_name.clone(),
                arguments: arguments.clone(),
            },
        }
    }
}

impl Clone for ExprList {
    fn clone(&self) -> (r: Self)
        ensures
            r == *self,
        decreases *self,
    {
        match self {
            ExprList::Nil => ExprList::Nil,
            ExprList::Cons(h, t) => ExprList::Cons(Box::new((**h).clone()), Box::new((**t).clone())),
        }
    }
}

impl Clone for WithMeta<Expr> {
    fn clone(&self) -> (r: Self)
        ensures
            r == *self,
        decreases *self,
    {
        WithMeta { id: self.id, meta: self.meta, value: self.value.clone() }
    }
}

impl Clone for AInstr {
    fn clone(&self) -> (r: Self)
        ensures
            r == *self,
    {
        match self {
            AInstr::PushString(s) => AInstr::PushString(s.clone()),
            AInstr::PushNumber(x) => AInstr::PushNumber(*x),
            AInstr::CallFunction { ty, link_name } => AInstr::CallFunction {
                ty: ty.clone(),
                link_name: link_name.clone(),
            },
        }
    }
}

impl Clone for AInstrList {
    fn clone(&self) -> (r: Self)
        ensures
            r == *self,
        decreases *self,
    {
        match self {
            AInstrList::Nil => AInstrList::Nil,
            AInstrList::Cons(h, t) => AInstrList::Cons(
                Box::new((**h).clone()),
                Box::new((**t).clone()),
            ),
        }
    }
}

impl Clone for Block {
    fn clone(&self) -> (r: Self)
        ensures
            r == *self,
    {
        Block { instructions: self.instructions.clone(), terminator: self.terminator }
    }
}

impl Clone for Mirs {
    fn clone(&self) -> (r: Self)
        ensures
            r == *self,
    {
        Mirs { entry: self.entry.clone() }
    }
}

} // verus!
