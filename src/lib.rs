//! Expands a callback macro once per tuple arity of an integer range.
//!
//! The descriptor `callback! for 1..=3` expands to the invocations
//! `callback!(0=>_0:T0);`, `callback!(0=>_0:T0,1=>_1:T1);` and
//! `callback!(0=>_0:T0,1=>_1:T1,2=>_2:T2);`, one after another. Each entry is
//! `index=>name:type`: the position in the tuple, a variable name `_index`
//! and a type parameter name `Tindex`.
use vstd::prelude::*;

pub mod decimal;
pub mod descriptor;
pub mod expand;
pub mod laws;

pub use crate::descriptor::{parse_descriptor, ExpandError, ForTupleInput};
pub use crate::expand::{expand, RangeSpec, TupleEntry};

use crate::descriptor::{is_identifier, parse_spec, parses_as_ident};
use crate::expand::expansion;

verus! {

/// What expanding the descriptor text `s` gives.
pub open spec fn for_tuple_spec(s: Seq<char>) -> Result<Seq<char>, ExpandError> {
    match parse_spec(s) {
        Err(e) => Err(e),
        Ok((callback, range)) => {
            if is_identifier(callback) {
                Ok(expansion(callback, range))
            } else {
                Err(ExpandError::Grammar)
            }
        },
    }
}

/// Expands a descriptor such as `impl_tuple! for 1..=8` into one invocation
/// of the callback per arity of the range, lowest arity first.
pub fn for_tuple(input: &str) -> (r: Result<String, ExpandError>)
    ensures
        match r {
            Ok(out) => for_tuple_spec(input@) == Ok::<Seq<char>, ExpandError>(out@),
            Err(e) => for_tuple_spec(input@) == Err::<Seq<char>, ExpandError>(e),
        },
{
    let d = match parse_descriptor(input) {
        Ok(d) => d,
        Err(e) => {
            return Err(e);
        },
    };
    if !parses_as_ident(d.callback.as_str()) {
        return Err(ExpandError::Grammar);
    }
    Ok(expand(d.callback.as_str(), d.range))
}

} // verus!
