use vstd::prelude::*;

pub mod conductor;
pub mod lemmas;
pub mod viewer;

verus! {

} // verus!
