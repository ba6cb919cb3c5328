//! Types of properties.

use vstd::prelude::*;

verus! {

/// Types of properties.
#[derive(Debug, Clone, Copy, PartialEq, Eq)]
pub enum Type {
    /// Either true or false.
    Bool,
    /// Text.
    String,
    /// Number.
    F64,
}

/// The name of a type as written in messages.
pub open spec fn name_of_type(t: Type) -> Seq<char> {
    match t {
        Type::Bool => "bool"@,
        Type::String => "text"@,
        Type::F64 => "num"@,
    }
}

impl Type {
    /// The name of the type as written in messages.
    pub fn get_str(&self) -> (s: &'static str)
        ensures
            s@ == name_of_type(*self),
    {
        match *self {
            Type::Bool => "bool",
            Type::String => "text",
            Type::F64 => "num",
        }
    }
}

} // verus!
