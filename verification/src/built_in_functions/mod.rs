//! The built-in functions that scripts can call.
use crate::context::NativeFunction;
use vstd::prelude::*;

pub mod hostname;

verus! {

/// The built-in function of the given name, or `None` when there is none. The name is looked
/// up in each group of built-in functions in turn.
pub fn lookup(function_name: &str) -> (r: Option<NativeFunction>)
    ensures
        r == hostname::spec_lookup(function_name@),
{
    hostname::lookup(function_name)
}

} // verus!
