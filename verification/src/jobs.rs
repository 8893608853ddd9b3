use vstd::prelude::*;

verus! {

/// A job record that keeps its tier and type as text.
#[derive(Debug)]
pub struct Job {
    pub name: String,
    pub tier: String,
    pub job_type: String,
}

/// The names of a job's affinity bonuses at each strength threshold.
#[derive(Debug)]
pub struct Affinities {
    pub _50: String,
    pub _120: String,
    pub _250: String,
    pub _400: String,
    pub _600: String,
}

} // verus!
