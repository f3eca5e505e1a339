use vstd::prelude::*;

verus! {

/// The meta-free type annotation carried by node content.
#[derive(Debug, PartialEq, Eq)]
pub enum DataType {
    Number,
    String,
    Function { parameters: DataTypeList, body: Box<DataType> },
}

/// An ordered list of meta-free types (a function's parameters).
#[derive(Debug, PartialEq, Eq)]
pub enum DataTypeList {
    Nil,
    Cons(Box<DataType>, Box<DataTypeList>),
}

/// How an application names the definition it links to.
#[derive(Debug, PartialEq, Eq)]
pub enum LinkName {
    Unnamed,
    Named(String),
}

/// What a node holds: a literal, or an application of a typed function to the
/// node's children.
#[derive(Debug, PartialEq, Eq)]
pub enum Content {
    String(String),
    Number(i64),
    Apply { ty: DataType, link_name: LinkName },
}

impl Clone for DataType {
    fn clone(&self) -> (r: Self)
        ensures
            r == *self,
        decreases *self,
    {
        match self {
            DataType::Number => DataType::Number,
            DataType::String => DataType::String,
            DataType::Function { parameters, body } => DataType::Function {
                parameters: parameters.clone(),
                body: Box::new((**body).clone()),
            },
        }
    }
}

impl Clone for DataTypeList {
    fn clone(&self) -> (r: Self)
        ensures
            r == *self,
        decreases *self,
    {
        match self {
            DataTypeList::Nil => DataTypeList::Nil,
            DataTypeList::Cons(h, t) => DataTypeList::Cons(
                Box::new((**h).clone()),
                Box::new((**t).clone()),
            ),
        }
    }
}

impl Clone for LinkName {
    fn clone(&self) -> (r: Self)
        ensures
            r == *self,
    {
        match self {
            LinkName::Unnamed => LinkName::Unnamed,
            LinkName::Named(s) => LinkName::Named(s.clone()),
        }
    }
}

impl Clone for Content {
    fn clone(&self) -> (r: Self)
        ensures
            r == *self,
    {
        match self {
            Content::String(s) => Content::String(s.clone()),
            Content::Number(n) => Content::Number(*n),
            Content::Apply { ty, link_name } => Content::Apply {
                ty: ty.clone(),
                link_name: link_name.clone(),
            },
        }
    }
}

} // verus!
