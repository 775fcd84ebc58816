//! The pieces of the parsed config tree the semantic diagnostics read: a
//! named identifier with its expanded-stream span, a class with an optional
//! parent, a numeric value, and the project configuration.

use vstd::prelude::*;

verus! {

/// A name in the expanded stream, with the character span it covers there.
pub struct Ident {
    pub value: String,
    pub span_start: usize,
    pub span_end: usize,
}

impl Clone for Ident {
    fn clone(&self) -> (r: Self)
        ensures
            r.value@ == self.value@,
            r.span_start == self.span_start,
            r.span_end == self.span_end,
    {
        Ident { value: self.value.clone(), span_start: self.span_start, span_end: self.span_end }
    }
}

impl Ident {
    pub fn new(value: String, span_start: usize, span_end: usize) -> (r: Ident)
        ensures
            r == (Ident { value, span_start, span_end }),
    {
        Ident { value, span_start, span_end }
    }

    pub fn as_str(&self) -> (r: &str)
        ensures
            r@ == self.value@,
    {
        self.value.as_str()
    }
}

/// A class declaration: its name and, where declared, its parent's name.
pub struct Class {
    pub name: Option<Ident>,
    pub parent: Option<Ident>,
}

impl Class {
    pub fn new(name: Option<Ident>, parent: Option<Ident>) -> (r: Class)
        ensures
            r == (Class { name, parent }),
    {
        Class { name, parent }
    }

    pub fn name(&self) -> (r: &Option<Ident>)
        ensures
            r == self.name,
    {
        &self.name
    }

    pub fn parent(&self) -> (r: &Option<Ident>)
        ensures
            r == self.parent,
    {
        &self.parent
    }
}

/// A numeric config value.
pub enum Number {
    Int32(i32),
    Int64(i64),
}

/// The owning project's declared configuration: its addon prefix.
pub struct ProjectConfig {
    pub prefix: String,
}

impl ProjectConfig {
    pub fn new(prefix: String) -> (r: ProjectConfig)
        ensures
            r.prefix@ == prefix@,
    {
        ProjectConfig { prefix }
    }

    pub fn prefix(&self) -> (r: &String)
        ensures
            r == self.prefix,
    {
        &self.prefix
    }
}

} // verus!
