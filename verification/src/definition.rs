//! Macro bindings: void, value-substitution, or parameterized function-like
//! bodies that keep their defining position for the recursion guard.

use vstd::prelude::*;
use crate::position::Position;
use crate::token::{clone_tokens, Token};

verus! {

/// A function-like macro: its parameters, body, and the source region of the
/// whole definition, kept for the recursion guard.
pub struct FunctionDefinition {
    pub position: Position,
    pub params: Vec<Token>,
    pub body: Vec<Token>,
}

/// The mathematical model of a function-like macro.
pub ghost struct FunctionModel {
    pub position: Position,
    pub params: Seq<Token>,
    pub body: Seq<Token>,
}

/// The mathematical model of a macro binding.
pub ghost enum DefinitionModel {
    Void,
    Value(Seq<Token>),
    Function(FunctionModel),
}

impl View for FunctionDefinition {
    type V = FunctionModel;

    open spec fn view(&self) -> FunctionModel {
        FunctionModel { position: self.position, params: self.params@, body: self.body@ }
    }
}

impl Clone for FunctionDefinition {
    fn clone(&self) -> (r: Self)
        ensures
            r@ == self@,
    {
        FunctionDefinition {
            position: self.position.clone(),
            params: clone_tokens(&self.params),
            body: clone_tokens(&self.body),
        }
    }
}

impl FunctionDefinition {
    pub fn new(position: Position, params: Vec<Token>, body: Vec<Token>) -> (r: FunctionDefinition)
        ensures
            r@ == (FunctionModel { position, params: params@, body: body@ }),
    {
        FunctionDefinition { position, params, body }
    }

    pub fn position(&self) -> (r: &Position)
        ensures
            r == self.position,
    {
        &self.position
    }

    pub fn args(&self) -> (r: &Vec<Token>)
        ensures
            r == self.params,
    {
        &self.params
    }

    pub fn body(&self) -> (r: &Vec<Token>)
        ensures
            r == self.body,
    {
        &self.body
    }
}

/// A named macro binding.
pub enum Definition {
    /// Defined with no replacement.
    Void,
    /// Replaced by a token sequence.
    Value(Vec<Token>),
    /// A function-like macro.
    Function(FunctionDefinition),
}

impl View for Definition {
    type V = DefinitionModel;

    open spec fn view(&self) -> DefinitionModel {
        match self {
            Definition::Void => DefinitionModel::Void,
            Definition::Value(v) => DefinitionModel::Value(v@),
            Definition::Function(f) => DefinitionModel::Function(f@),
        }
    }
}

impl Clone for Definition {
    fn clone(&self) -> (r: Self)
        ensures
            r@ == self@,
    {
        match self {
            Definition::Void => Definition::Void,
            Definition::Value(v) => Definition::Value(clone_tokens(v)),
            Definition::Function(f) => Definition::Function(f.clone()),
        }
    }
}

impl Definition {
    /// The function-like definition, where there is one.
    pub fn as_function(&self) -> (r: Option<&FunctionDefinition>)
        ensures
            match r {
                Some(f) => self@ == DefinitionModel::Function(f@),
                None => !(self@ is Function),
            },
    {
        match self {
            Definition::Function(f) => Some(f),
            _ => None,
        }
    }

    pub fn is_function(&self) -> (r: bool)
        ensures
            r == (self@ is Function),
    {
        match self {
            Definition::Function(_) => true,
            _ => false,
        }
    }

    pub fn is_value(&self) -> (r: bool)
        ensures
            r == (self@ is Value),
    {
        match self {
            Definition::Value(_) => true,
            _ => false,
        }
    }
}

} // verus!
