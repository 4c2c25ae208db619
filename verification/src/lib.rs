//! Core of an interactive administration shell for a remote cluster API:
//! the session state machine, its object-selection and range model, the
//! log-streaming engine, and the port-forward supervisor.

pub mod commands;
pub mod errors;
pub mod forward;
pub mod logs;
pub mod objects;
pub mod ranges;
pub mod session;
pub mod template;
pub mod validate;
pub mod sink;
pub mod strings;

use vstd::prelude::*;

verus! {

/// Return the argument unchanged.
pub fn identity<T>(t: T) -> (r: T)
    ensures
        r == t,
{
    t
}

} // verus!
