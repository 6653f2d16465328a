use vstd::prelude::*;

pub mod dispatch;
pub mod json;
pub mod listing;
pub mod rotation;
pub mod status;
pub mod text;

verus! {

} // verus!
