//! Signal-processing helpers: the decisions that the floating-point layer
//! takes on its samples, stated over what the library reads of each sample
//! (see `reading::Reading`).

pub mod reading;
pub mod sample;
pub mod amplitude;
pub mod frequency;
pub mod window;
pub mod normalize;
pub mod energy;
pub mod zero_crossing;
pub mod filter;
