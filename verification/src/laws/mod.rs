//! What the library promises as a whole.
//!
//! The modules state what each function gives.  Here it is said what that is for: each
//! law speaks of inputs and results in plain terms, over all inputs.

pub mod bag;
pub mod calls;
pub mod drawing;
pub mod feet;
pub mod figures;
pub mod hits;
pub mod hooks;
pub mod machine;
pub mod monsters;
pub mod names;
pub mod patches;
pub mod pictures;
pub mod screen;
pub mod sleeping;
pub mod ticks;
pub mod uses;
