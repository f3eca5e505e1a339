use vstd::prelude::*;

verus! {

/// Identifier of a bounded type variable.
pub type Id = usize;

/// A stable id attached to every intermediate-representation node.
#[derive(Clone, Copy, Debug, PartialEq, Eq, Structural, Default)]
pub struct IrId(pub u64);

/// A source position range.
#[derive(Clone, Copy, Debug, PartialEq, Eq, Structural, Default)]
pub struct Span {
    pub lo: usize,
    pub hi: usize,
}

/// Source-position metadata paired with every IR node.
#[derive(Clone, Copy, Debug, PartialEq, Eq, Structural, Default)]
pub struct Meta {
    pub span: Span,
}

/// An IR value together with its id and source metadata.
#[derive(Debug, PartialEq, Eq)]
pub struct WithMeta<T> {
    pub id: IrId,
    pub meta: Meta,
    pub value: T,
}

} // verus!
