//! Fixed-step integration of a first-order system: a verified driver that
//! records a trajectory until the state leaves its domain or an iteration
//! budget is spent.
pub mod trajectory;

pub use trajectory::trace;
