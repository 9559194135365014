//! A verified core for a Linux input-device remapper: the key/event model,
//! the key-literal grammar, a scripted-evaluation engine, and the runtime
//! mediator that dispatches input events against a mapping table.

use vstd::prelude::*;

pub mod keys;
pub mod key_names;
pub mod key_parse;
pub mod script;
pub mod mediator;
pub mod eval;
pub mod reader;
pub mod devices;

verus! {

} // verus!
