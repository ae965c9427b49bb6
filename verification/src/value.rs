//! Values of parameters.

use vstd::prelude::*;
use vstd::std_specs::convert::FromSpecImpl;

verus! {

/// The setting of a parameter such as a volume.
#[derive(Debug, Clone, Copy, PartialEq, Eq, Hash)]
pub enum Value {
    /// A fixed-point number that stays the same.
    Fixed(i64),
}

impl Value {
    /// The number that the parameter is set to.
    pub open spec fn number(self) -> int {
        match self {
            Value::Fixed(v) => v as int,
        }
    }

    /// The number that the parameter is set to.
    pub fn get(&self) -> (v: i64)
        ensures
            v == self.number(),
        no_unwind
    {
        match self {
            Value::Fixed(v) => *v,
        }
    }
}

impl From<i64> for Value {
    fn from(v: i64) -> (value: Value) {
        Value::Fixed(v)
    }
}

impl FromSpecImpl<i64> for Value {
    open spec fn obeys_from_spec() -> bool {
        true
    }

    open spec fn from_spec(v: i64) -> Value {
        Value::Fixed(v)
    }
}

} // verus!
