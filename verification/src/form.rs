use vstd::prelude::*;

verus! {

/// What the build form sends: the active job with its strength, the weapon and
/// body equipment types, and for each equipment slot two job choices and a strength.
#[derive(Debug)]
pub struct FormData {
    pub active_job: String,
    pub active_job_strength: u32,
    pub weapon_type: String,
    pub body_type: String,
    pub weapon_job1: String,
    pub weapon_job2: String,
    pub weapon_strength: u32,
    pub shield_job1: String,
    pub shield_job2: String,
    pub shield_strength: u32,
    pub head_job1: String,
    pub head_job2: String,
    pub head_strength: u32,
    pub body_job1: String,
    pub body_job2: String,
    pub body_strength: u32,
    pub hand_job1: String,
    pub hand_job2: String,
    pub hand_strength: u32,
    pub leg_job1: String,
    pub leg_job2: String,
    pub leg_strength: u32,
    pub foot_job1: String,
    pub foot_job2: String,
    pub foot_strength: u32,
}

/// The form that a fresh page starts from: a two-handed weapon, body-only
/// equipment, no job chosen anywhere, and the default strengths.
pub open spec fn is_initial_form(f: FormData) -> bool {
    &&& f.active_job@ == Seq::<char>::empty()
    &&& f.active_job_strength == 0
    &&& f.weapon_type@ == "2H"@
    &&& f.body_type@ == "body-only"@
    &&& f.weapon_job1@ == Seq::<char>::empty()
    &&& f.weapon_job2@ == Seq::<char>::empty()
    &&& f.weapon_strength == 350
    &&& f.shield_job1@ == Seq::<char>::empty()
    &&& f.shield_job2@ == Seq::<char>::empty()
    &&& f.shield_strength == 75
    &&& f.head_job1@ == Seq::<char>::empty()
    &&& f.head_job2@ == Seq::<char>::empty()
    &&& f.head_strength == 250
    &&& f.body_job1@ == Seq::<char>::empty()
    &&& f.body_job2@ == Seq::<char>::empty()
    &&& f.body_strength == 250
    &&& f.hand_job1@ == Seq::<char>::empty()
    &&& f.hand_job2@ == Seq::<char>::empty()
    &&& f.hand_strength == 250
    &&& f.leg_job1@ == Seq::<char>::empty()
    &&& f.leg_job2@ == Seq::<char>::empty()
    &&& f.leg_strength == 250
    &&& f.foot_job1@ == Seq::<char>::empty()
    &&& f.foot_job2@ == Seq::<char>::empty()
    &&& f.foot_strength == 250
}

impl FormData {
    /// The form that a fresh page starts from.
    pub fn new() -> (f: Self)
        ensures
            is_initial_form(f),
    {
        FormData {
            active_job: String::new(),
            active_job_strength: 0,
            weapon_type: "2H".to_owned(),
            body_type: "body-only".to_owned(),
            weapon_job1: String::new(),
            weapon_job2: String::new(),
            weapon_strength: 350,
            shield_job1: String::new(),
            shield_job2: String::new(),
            shield_strength: 75,
            head_job1: String::new(),
            head_job2: String::new(),
            head_strength: 250,
            body_job1: String::new(),
            body_job2: String::new(),
            body_strength: 250,
            hand_job1: String::new(),
            hand_job2: String::new(),
            hand_strength: 250,
            leg_job1: String::new(),
            leg_job2: String::new(),
            leg_strength: 250,
            foot_job1: String::new(),
            foot_job2: String::new(),
            foot_strength: 250,
        }
    }
}

} // verus!
