//! The naive strategy: one worker per output element, each scanning the
//! reduced dimension from its first entry to its last.

pub mod argmax;
pub mod argmin;
pub mod base;
pub mod kernel;
pub mod max_dim;
pub mod mean_dim;
pub mod min_dim;
pub mod prod_dim;
pub mod sum_dim;
