use vstd::prelude::*;

verus! {

/// A runtime value of the language: a 64-bit signed integer or a boolean.
/// There is no implicit coercion between the two tags.
#[derive(Debug, Clone, Copy, PartialEq, Eq, Structural)]
pub enum Val {
    Integer(i64),
    Boolean(bool),
}

impl Val {
    /// The integer carried by an `Integer` value, `None` for a boolean.
    pub fn as_integer(&self) -> (r: Option<i64>)
        ensures
            r == (match *self {
                Val::Integer(v) => Some(v),
                Val::Boolean(_) => None::<i64>,
            }),
    {
        match *self {
            Val::Integer(v) => Some(v),
            Val::Boolean(_) => None,
        }
    }

    /// The boolean carried by a `Boolean` value, `None` for an integer.
    pub fn as_bool(&self) -> (r: Option<bool>)
        ensures
            r == (match *self {
                Val::Boolean(v) => Some(v),
                Val::Integer(_) => None::<bool>,
            }),
    {
        match *self {
            Val::Boolean(v) => Some(v),
            Val::Integer(_) => None,
        }
    }
}

} // verus!
