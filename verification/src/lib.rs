//! The build model of an equipment simulator: which job affinity sums a filled-in
//! build form adds up to, and which affinity bonuses of each job those sums unlock.
//!
//! - [`named_map`]: the map keyed by job name that the model fills.
//! - [`model`]: jobs, their bonuses, equipment slots, and the sums and bonuses of a form.
//! - [`form`]: the build form.
//! - [`page`]: what the page shows of a build: slot states, job lists, ordering.
//! - [`laws`]: properties that hold across the model's functions.
//! - [`jobs`]: job records that keep tier and type as text.

pub mod form;
pub mod jobs;
pub mod laws;
pub mod model;
pub mod named_map;
pub mod page;
