//! A small task tracker: an in-memory collection of tasks with unique ids,
//! together with a text codec for the persisted form of the collection.

pub mod ops;
pub mod parse;
pub mod render;
pub mod report;
pub mod roundtrip;
pub mod store;
pub mod text;
pub mod task;

use vstd::prelude::*;

verus! {

} // verus!
