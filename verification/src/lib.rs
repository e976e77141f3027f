use vstd::prelude::*;

pub mod adapter;
pub mod addr;
pub mod cli;
pub mod control;
pub mod display;
pub mod laws;
pub mod num;
pub mod run;
pub mod text;
pub mod style;
pub mod stub;
pub mod types;
pub mod units;

verus! {

} // verus!
