use vstd::prelude::*;
use crate::number::{decimal, decimal_text};

verus! {

/// The decimal text of the sum of two numbers.
pub fn sum_as_string(a: usize, b: usize) -> (r: String)
    requires
        a + b <= usize::MAX,
    ensures
        r@ == decimal((a + b) as nat),
{
    decimal_text(a + b)
}

/// A plain value holder exposed to host runtimes.
pub struct Base {
    pub value: i32,
}

impl Base {
    pub fn new(value: i32) -> (r: Base)
        ensures
            r.value == value,
    {
        Base { value }
    }
}

} // verus!
