use vstd::prelude::*;
use crate::meta::{Id, WithMeta};

verus! {

/// One effect handler signature: the effect's input and output types.
#[derive(Debug, PartialEq, Eq)]
pub struct Handler {
    pub input: WithMeta<Type>,
    pub output: WithMeta<Type>,
}

/// An ordered list of types with their metadata.
#[derive(Debug, PartialEq, Eq)]
pub enum TypeList {
    Nil,
    Cons(Box<WithMeta<Type>>, Box<TypeList>),
}

/// An ordered list of handler signatures.
#[derive(Debug, PartialEq, Eq)]
pub enum HandlerList {
    Nil,
    Cons(Box<Handler>, Box<HandlerList>),
}

/// The type grammar shared by every compilation stage.
#[derive(Debug, PartialEq, Eq)]
pub enum Type {
    Number,
    String,
    Trait(TypeList),
    Effectful { class: HandlerList, ty: Box<WithMeta<Type>>, handlers: HandlerList },
    Effect { class: HandlerList, handler: Box<Handler> },
    Infer,
    This,
    Product(TypeList),
    Sum(TypeList),
    Function { parameter: Box<WithMeta<Type>>, body: Box<WithMeta<Type>> },
    Array(Box<WithMeta<Type>>),
    SetOf(Box<WithMeta<Type>>),
    Let { definition: Box<WithMeta<Type>>, body: Box<WithMeta<Type>> },
    Variable(Id),
    BoundedVariable { bound: Box<WithMeta<Type>>, identifier: String },
}

impl Clone for Type {
    fn clone(&self) -> (r: Self)
        ensures
            r == *self,
        decreases *self,
    {
        match self {
            Type::Number => Type::Number,
            Type::String => Type::String,
            Type::Trait(ts) => Type::Trait(ts.clone()),
            Type::Effectful { class, ty, handlers } => Type::Effectful {
                class: class.clone(),
                ty: Box::new((**ty).clone()),
                handlers: handlers.clone(),
            },
            Type::Effect { class, handler } => Type::Effect {
                class: class.clone(),
                handler: Box::new((**handler).clone()),
            },
            Type::Infer => Type::Infer,
            Type::This => Type::This,
            Type::Product(ts) => Type::Product(ts.clone()),
            Type::Sum(ts) => Type::Sum(ts.clone()),
            Type::Function { parameter, body } => Type::Function {
                parameter: Box::new((**parameter).clone()),
                body: Box::new((**body).clone()),
            },
            Type::Array(t) => Type::Array(Box::new((**t).clone())),
            Type::SetOf(t) => Type::SetOf(Box::new((**t).clone())),
            Type::Let { definition, body } => Type::Let {
                definition: Box::new((**definition).clone()),
                body: Box::new((**body).clone()),
            },
            Type::Variable(id) => Type::Variable(*id),
            Type::BoundedVariable { bound, identifier } => Type::BoundedVariable {
                bound: Box::new((**bound).clone()),
                identifier: identifier.clone(),
            },
        }
    }
}

impl Clone for WithMeta<Type> {
    fn clone(&self) -> (r: Self)
        ensures
            r == *self,
        decreases *self,
    {
        WithMeta { id: self.id, meta: self.meta, value: self.value.clone() }
    }
}

impl Clone for Handler {
    fn clone(&self) -> (r: Self)
        ensures
            r == *self,
        decreases *self,
    {
        Handler { input: self.input.clone(), output: self.output.clone() }
    }
}

impl Clone for TypeList {
    fn clone(&self) -> (r: Self)
        ensures
            r == *self,
        decreases *self,
    {
        match self {
            TypeList::Nil => TypeList::Nil,
            TypeList::Cons(h, t) => TypeList::Cons(Box::new((**h).clone()), Box::new((**t).clone())),
        }
    }
}

impl Clone for HandlerList {
    fn clone(&self) -> (r: Self)
        ensures
            r == *self,
        decreases *self,
    {
        match self {
            HandlerList::Nil => HandlerList::Nil,
            HandlerList::Cons(h, t) => HandlerList::Cons(Box::new((**h).clone()), Box::new((**t).clone())),
        }
    }
}

} // verus!
