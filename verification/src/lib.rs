use vstd::prelude::*;

pub mod binary64;
pub mod cpu;
pub mod disk;
pub mod fmt;
pub mod gpu;
pub mod history;
pub mod labels;
pub mod npu;
pub mod schedule;
pub mod sections;
pub mod theme;
pub mod text;

verus! {

} // verus!
