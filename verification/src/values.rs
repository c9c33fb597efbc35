//! The closed set of value shapes a template variable may take, together
//! with its ghost model.

use vstd::prelude::*;

verus! {

/// Ghost meaning of a [`Value`]: the same tags, with mathematical contents.
pub enum ValueModel {
    Boolean(bool),
    Text(Seq<char>),
    Integer(i64),
}

/// A value collected for a template variable.  The set of supported shapes
/// is closed: a definition may only declare boolean, string and integer
/// questions.
#[derive(Debug)]
pub enum Value {
    Boolean(bool),
    Text(String),
    Integer(i64),
}

impl View for Value {
    type V = ValueModel;

    open spec fn view(&self) -> ValueModel {
        match self {
            Value::Boolean(b) => ValueModel::Boolean(*b),
            Value::Text(s) => ValueModel::Text(s@),
            Value::Integer(i) => ValueModel::Integer(*i),
        }
    }
}

impl PartialEq for Value {
    fn eq(&self, other: &Value) -> (r: bool) {
        match self {
            Value::Boolean(a) => match other {
                Value::Boolean(b) => *a == *b,
                _ => false,
            },
            Value::Text(a) => match other {
                Value::Text(b) => *a == *b,
                _ => false,
            },
            Value::Integer(a) => match other {
                Value::Integer(b) => *a == *b,
                _ => false,
            },
        }
    }
}

impl vstd::std_specs::cmp::PartialEqSpecImpl for Value {
    open spec fn obeys_eq_spec() -> bool {
        true
    }

    open spec fn eq_spec(&self, other: &Value) -> bool {
        self@ == other@
    }
}

impl Value {
    /// A copy of the value with the same ghost model.
    pub fn duplicate(&self) -> (r: Value)
        ensures
            r@ == self@,
    {
        match self {
            Value::Boolean(b) => Value::Boolean(*b),
            Value::Text(s) => Value::Text(s.clone()),
            Value::Integer(i) => Value::Integer(*i),
        }
    }
}

/// Two values agree exactly when their ghost models do; this is what `==`
/// on [`Value`] decides.
pub fn value_eq(a: &Value, b: &Value) -> (r: bool)
    ensures
        r == (a@ == b@),
{
    a == b
}

} // verus!
