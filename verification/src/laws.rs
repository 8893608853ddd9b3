use vstd::prelude::*;

use crate::form::FormData;
use crate::model::{AffinityBonuses, Job, JobTier, NO_JOB, FIRST_THRESHOLD, SECOND_THRESHOLD, THIRD_THRESHOLD, in_sums, sum_for, equipment_of_form, equipment_slot_names, equipment_total, chosen_jobs, worn_in, active_bonuses_of, slot_contribution, strength_in};
use crate::page::{names_in_tier, slot_disabled, slot_choice};

verus! {

/// A bonus is active exactly when the strength reaches its threshold, and it is
/// the bonus that the job gives at that threshold.
pub proof fn law_bonus_active_iff_threshold_reached(bonuses: AffinityBonuses, strength: u32)
    ensures
        forall|t: u32| #[trigger]
            bonuses.active_at(strength).contains_key(t) <==> ((t == FIRST_THRESHOLD || t
                == SECOND_THRESHOLD || t == THIRD_THRESHOLD) && t <= strength),
        strength >= FIRST_THRESHOLD ==> bonuses.active_at(strength)[FIRST_THRESHOLD] == bonuses._250,
        strength >= SECOND_THRESHOLD ==> bonuses.active_at(strength)[SECOND_THRESHOLD] == bonuses._400,
        strength >= THIRD_THRESHOLD ==> bonuses.active_at(strength)[THIRD_THRESHOLD] == bonuses._600,
{
}

/// A stronger affinity keeps every bonus that a weaker one activates.
pub proof fn law_stronger_affinity_keeps_bonuses(bonuses: AffinityBonuses, weaker: u32, stronger: u32)
    requires
        weaker <= stronger,
    ensures
        bonuses.active_at(weaker).submap_of(bonuses.active_at(stronger)),
{
}

/// The empty job choice never gets an affinity sum: no slot counts it and the
/// active job does not either.
pub proof fn law_empty_choice_has_no_sum(form: FormData)
    ensures
        !in_sums(form, NO_JOB@),
{
    let es = equipment_of_form(form);
    assert forall|i: int| 0 <= i < es.len() implies !(#[trigger] es[i]).job_names.contains(NO_JOB@) by {
        let names = es[i].job_names;
        if names.contains(NO_JOB@) {
            let k = choose|k: int| 0 <= k < names.len() && names[k] == NO_JOB@;
            assert(names[k] != NO_JOB@);
        }
    }
}

/// A job has active bonuses exactly when the job data holds a job of that name
/// whose strength in the sums is not zero.
pub proof fn law_bonuses_only_for_listed_jobs_with_strength(
    jobs: Seq<Job>,
    sums: Map<Seq<char>, u32>,
    name: Seq<char>,
)
    ensures
        active_bonuses_of(jobs, sums).contains_key(name) <==> ((exists|i: int|
            0 <= i < jobs.len() && (#[trigger] jobs[i]).name@ == name) && sums.contains_key(name)
            && sums[name] > 0),
    decreases jobs.len(),
{
    if jobs.len() > 0 {
        let earlier = jobs.drop_last();
        law_bonuses_only_for_listed_jobs_with_strength(earlier, sums, name);
        if exists|i: int| 0 <= i < earlier.len() && (#[trigger] earlier[i]).name@ == name {
            let i = choose|i: int| 0 <= i < earlier.len() && (#[trigger] earlier[i]).name@ == name;
            assert(jobs[i] == earlier[i]);
        }
        if exists|i: int| 0 <= i < jobs.len() && (#[trigger] jobs[i]).name@ == name {
            let i = choose|i: int| 0 <= i < jobs.len() && (#[trigger] jobs[i]).name@ == name;
            if i < jobs.len() - 1 {
                assert(earlier[i] == jobs[i]);
            }
        }
        assert(jobs[jobs.len() - 1] == jobs.last());
    }
}

/// The active bonuses of a job are those of a job of that name in the job data,
/// at the job's entry in the sums, which is a positive strength.
pub proof fn law_bonuses_are_those_of_the_job(jobs: Seq<Job>, sums: Map<Seq<char>, u32>, name: Seq<char>)
    requires
        active_bonuses_of(jobs, sums).contains_key(name),
    ensures
        sums.contains_key(name),
        sums[name] > 0,
        exists|i: int|
            0 <= i < jobs.len() && (#[trigger] jobs[i]).name@ == name && active_bonuses_of(jobs, sums)[name]
                == jobs[i].affinity_bonuses.active_at(sums[name]),
    decreases jobs.len(),
{
    let earlier = jobs.drop_last();
    let last = jobs.last();
    assert(jobs[jobs.len() - 1] == last);
    if last.name@ == name && strength_in(sums, name) != 0 {
    } else {
        law_bonuses_are_those_of_the_job(earlier, sums, name);
        let i = choose|i: int|
            0 <= i < earlier.len() && (#[trigger] earlier[i]).name@ == name && active_bonuses_of(earlier, sums)[name]
                == earlier[i].affinity_bonuses.active_at(sums[name]);
        assert(jobs[i] == earlier[i]);
    }
}

/// The job is picked in a slot whose two job fields are given.
pub open spec fn picked_in(job1: Seq<char>, job2: Seq<char>, job: Seq<char>) -> bool {
    job != NO_JOB@ && (job1 == job || job2 == job)
}

/// What a slot with these job fields and this strength adds to the job's sum.
pub open spec fn adds_to(job1: Seq<char>, job2: Seq<char>, strength: u32, job: Seq<char>) -> int {
    if picked_in(job1, job2, job) {
        strength as int
    } else {
        0
    }
}

proof fn lemma_chosen_contains(job1: Seq<char>, job2: Seq<char>, job: Seq<char>)
    ensures
        chosen_jobs(job1, job2).contains(job) <==> picked_in(job1, job2, job),
{
    let c = chosen_jobs(job1, job2);
    if picked_in(job1, job2, job) {
        if job1 == job {
            assert(c[0] == job);
        } else {
            assert(c[c.len() - 1] == job);
        }
    }
    if c.contains(job) {
        let k = choose|k: int| 0 <= k < c.len() && c[k] == job;
        if job1 == NO_JOB@ {
            assert(c[k] == job2);
        } else if k == 0 {
            assert(c[0] == job1);
        } else {
            assert(c[k] == job2);
        }
    }
}

/// The sum of a (non-empty) job name is read off the form field by field: each
/// slot adds its own strength when the job is picked in that slot's own two job
/// fields, and the active job adds the active strength; the job has a sum exactly
/// when some slot picks it or it is the active job.
pub proof fn law_sum_is_read_off_the_form(f: FormData, job: Seq<char>)
    requires
        job.len() > 0,
    ensures
        sum_for(f, job) == adds_to(f.weapon_job1@, f.weapon_job2@, f.weapon_strength, job)
            + adds_to(f.shield_job1@, f.shield_job2@, f.shield_strength, job)
            + adds_to(f.head_job1@, f.head_job2@, f.head_strength, job)
            + adds_to(f.body_job1@, f.body_job2@, f.body_strength, job)
            + adds_to(f.hand_job1@, f.hand_job2@, f.hand_strength, job)
            + adds_to(f.leg_job1@, f.leg_job2@, f.leg_strength, job)
            + adds_to(f.foot_job1@, f.foot_job2@, f.foot_strength, job)
            + (if f.active_job@ != NO_JOB@ && job == f.active_job@ {
            f.active_job_strength as int
        } else {
            0
        }),
        in_sums(f, job) <==> (picked_in(f.weapon_job1@, f.weapon_job2@, job)
            || picked_in(f.shield_job1@, f.shield_job2@, job)
            || picked_in(f.head_job1@, f.head_job2@, job)
            || picked_in(f.body_job1@, f.body_job2@, job)
            || picked_in(f.hand_job1@, f.hand_job2@, job)
            || picked_in(f.leg_job1@, f.leg_job2@, job)
            || picked_in(f.foot_job1@, f.foot_job2@, job)
            || (f.active_job@ != NO_JOB@ && job == f.active_job@)),
{
    let es = equipment_of_form(f);
    lemma_chosen_contains(f.weapon_job1@, f.weapon_job2@, job);
    lemma_chosen_contains(f.shield_job1@, f.shield_job2@, job);
    lemma_chosen_contains(f.head_job1@, f.head_job2@, job);
    lemma_chosen_contains(f.body_job1@, f.body_job2@, job);
    lemma_chosen_contains(f.hand_job1@, f.hand_job2@, job);
    lemma_chosen_contains(f.leg_job1@, f.leg_job2@, job);
    lemma_chosen_contains(f.foot_job1@, f.foot_job2@, job);
    assert(es[0].strength == f.weapon_strength && es[0].job_names == chosen_jobs(f.weapon_job1@, f.weapon_job2@));
    assert(es[1].strength == f.shield_strength && es[1].job_names == chosen_jobs(f.shield_job1@, f.shield_job2@));
    assert(es[2].strength == f.head_strength && es[2].job_names == chosen_jobs(f.head_job1@, f.head_job2@));
    assert(es[3].strength == f.body_strength && es[3].job_names == chosen_jobs(f.body_job1@, f.body_job2@));
    assert(es[4].strength == f.hand_strength && es[4].job_names == chosen_jobs(f.hand_job1@, f.hand_job2@));
    assert(es[5].strength == f.leg_strength && es[5].job_names == chosen_jobs(f.leg_job1@, f.leg_job2@));
    assert(es[6].strength == f.foot_strength && es[6].job_names == chosen_jobs(f.foot_job1@, f.foot_job2@));
    let e6 = es.drop_last();
    let e5 = e6.drop_last();
    let e4 = e5.drop_last();
    let e3 = e4.drop_last();
    let e2 = e3.drop_last();
    let e1 = e2.drop_last();
    let e0 = e1.drop_last();
    assert(e0.len() == 0);
    assert(equipment_total(e0, job) == 0);
    assert(equipment_total(e1, job) == slot_contribution(es[0], job));
    assert(equipment_total(e2, job) == equipment_total(e1, job) + slot_contribution(es[1], job));
    assert(equipment_total(e3, job) == equipment_total(e2, job) + slot_contribution(es[2], job));
    assert(equipment_total(e4, job) == equipment_total(e3, job) + slot_contribution(es[3], job));
    assert(equipment_total(e5, job) == equipment_total(e4, job) + slot_contribution(es[4], job));
    assert(equipment_total(e6, job) == equipment_total(e5, job) + slot_contribution(es[5], job));
    assert(equipment_total(es, job) == equipment_total(e6, job) + slot_contribution(es[6], job));
    if worn_in(es, job) {
        let i = choose|i: int| 0 <= i < es.len() && (#[trigger] es[i]).job_names.contains(job);
        assert(0 <= i < 7);
    }
    if picked_in(f.weapon_job1@, f.weapon_job2@, job) { assert(es[0].job_names.contains(job)); }
    if picked_in(f.shield_job1@, f.shield_job2@, job) { assert(es[1].job_names.contains(job)); }
    if picked_in(f.head_job1@, f.head_job2@, job) { assert(es[2].job_names.contains(job)); }
    if picked_in(f.body_job1@, f.body_job2@, job) { assert(es[3].job_names.contains(job)); }
    if picked_in(f.hand_job1@, f.hand_job2@, job) { assert(es[4].job_names.contains(job)); }
    if picked_in(f.leg_job1@, f.leg_job2@, job) { assert(es[5].job_names.contains(job)); }
    if picked_in(f.foot_job1@, f.foot_job2@, job) { assert(es[6].job_names.contains(job)); }
}

/// The slots that a form is read into are the listed equipment slots, in the same order.
pub proof fn law_form_slots_are_the_listed_slots(f: FormData)
    ensures
        equipment_of_form(f).len() == equipment_slot_names().len(),
        forall|k: int| 0 <= k < equipment_slot_names().len() ==> (#[trigger] equipment_of_form(f)[k]).slot
            == equipment_slot_names()[k],
{
}

/// A job picked in the legs slot and nowhere else, with no active job, sums to
/// exactly the legs strength.
pub proof fn law_legs_only_job_sums_to_legs_strength(f: FormData, job: Seq<char>)
    requires
        job.len() > 0,
        job != NO_JOB@,
        f.leg_job1@ == job,
        f.active_job@ == NO_JOB@,
        f.weapon_job1@ != job && f.weapon_job2@ != job,
        f.shield_job1@ != job && f.shield_job2@ != job,
        f.head_job1@ != job && f.head_job2@ != job,
        f.body_job1@ != job && f.body_job2@ != job,
        f.hand_job1@ != job && f.hand_job2@ != job,
        f.foot_job1@ != job && f.foot_job2@ != job,
    ensures
        in_sums(f, job),
        sum_for(f, job) == f.leg_strength,
{
    law_sum_is_read_off_the_form(f, job);
}

/// Each listed job whose entry in the sums is a positive strength `s` gets the
/// bonuses active at `s` itself (from the last job of that name in the list);
/// a job gets bonuses only if it is listed and has a positive entry in the sums.
pub proof fn law_bonuses_use_the_summed_strength(jobs: Seq<Job>, sums: Map<Seq<char>, u32>, i: int)
    requires
        0 <= i < jobs.len(),
        forall|k: int| i < k < jobs.len() ==> (#[trigger] jobs[k]).name@ != jobs[i].name@,
        sums.contains_key(jobs[i].name@),
        sums[jobs[i].name@] > 0,
    ensures
        active_bonuses_of(jobs, sums).contains_key(jobs[i].name@),
        active_bonuses_of(jobs, sums)[jobs[i].name@] == jobs[i].affinity_bonuses.active_at(
            sums[jobs[i].name@],
        ),
    decreases jobs.len(),
{
    let last = jobs.len() - 1;
    assert(jobs.last() == jobs[last]);
    if i < last {
        let earlier = jobs.drop_last();
        assert forall|k: int| i < k < earlier.len() implies (#[trigger] earlier[k]).name@ != earlier[i].name@ by {
            assert(earlier[k] == jobs[k]);
        }
        assert(earlier[i] == jobs[i]);
        law_bonuses_use_the_summed_strength(earlier, sums, i);
        assert(jobs[last].name@ != jobs[i].name@);
    }
}

/// The job names offered for a tier are the job list filtered by that tier, in list order.
pub proof fn law_tier_names_are_the_filtered_list(jobs: Seq<Job>, tier: JobTier)
    ensures
        names_in_tier(jobs, tier) == jobs.filter(|j: Job| j.tier == tier).map_values(|j: Job| j.name@),
    decreases jobs.len(),
{
    reveal_with_fuel(Seq::<_>::filter, 1);
    if jobs.len() > 0 {
        law_tier_names_are_the_filtered_list(jobs.drop_last(), tier);
        let f0 = jobs.drop_last().filter(|j: Job| j.tier == tier);
        if jobs.last().tier == tier {
            assert(f0.push(jobs.last()).map_values(|j: Job| j.name@) =~= f0.map_values(|j: Job| j.name@).push(jobs.last().name@));
        }
    }
}

/// Only the shield, the head and the leg slot are ever greyed out: the shield
/// exactly with a two-handed weapon, the head exactly with body-and-head
/// equipment, the leg exactly with body-and-legs equipment.
pub proof fn law_only_shield_head_leg_are_disabled(slot: Seq<char>, f: FormData)
    ensures
        slot != "shield"@ && slot != "head"@ && slot != "leg"@ ==> !slot_disabled(slot, f),
        slot_disabled("shield"@, f) <==> f.weapon_type@ == "2H"@,
        slot_disabled("head"@, f) <==> f.body_type@ == "body-head"@,
        slot_disabled("leg"@, f) <==> f.body_type@ == "body-leg"@,
{
    reveal_strlit("shield");
    reveal_strlit("head");
    reveal_strlit("leg");
    assert("shield"@.len() == 6 && "head"@.len() == 4 && "leg"@.len() == 3);
}

/// Each slot of the equipment form shows the form's own two job fields and strength of that slot.
pub proof fn law_each_slot_shows_its_own_fields(f: FormData)
    ensures
        slot_choice("weapon"@, f) == (f.weapon_job1@, f.weapon_job2@, f.weapon_strength),
        slot_choice("shield"@, f) == (f.shield_job1@, f.shield_job2@, f.shield_strength),
        slot_choice("head"@, f) == (f.head_job1@, f.head_job2@, f.head_strength),
        slot_choice("body"@, f) == (f.body_job1@, f.body_job2@, f.body_strength),
        slot_choice("hand"@, f) == (f.hand_job1@, f.hand_job2@, f.hand_strength),
        slot_choice("leg"@, f) == (f.leg_job1@, f.leg_job2@, f.leg_strength),
        slot_choice("foot"@, f) == (f.foot_job1@, f.foot_job2@, f.foot_strength),
{
    reveal_strlit("weapon");
    reveal_strlit("shield");
    reveal_strlit("head");
    reveal_strlit("body");
    reveal_strlit("hand");
    reveal_strlit("leg");
    reveal_strlit("foot");
    assert("weapon"@ != "shield"@) by { assert("weapon"@[0] != "shield"@[0]); }
    assert("weapon"@ != "head"@) by { assert("weapon"@.len() != "head"@.len()); }
    assert("weapon"@ != "body"@) by { assert("weapon"@.len() != "body"@.len()); }
    assert("weapon"@ != "hand"@) by { assert("weapon"@.len() != "hand"@.len()); }
    assert("weapon"@ != "leg"@) by { assert("weapon"@.len() != "leg"@.len()); }
    assert("weapon"@ != "foot"@) by { assert("weapon"@.len() != "foot"@.len()); }
    assert("shield"@ != "head"@) by { assert("shield"@.len() != "head"@.len()); }
    assert("shield"@ != "body"@) by { assert("shield"@.len() != "body"@.len()); }
    assert("shield"@ != "hand"@) by { assert("shield"@.len() != "hand"@.len()); }
    assert("shield"@ != "leg"@) by { assert("shield"@.len() != "leg"@.len()); }
    assert("shield"@ != "foot"@) by { assert("shield"@.len() != "foot"@.len()); }
    assert("head"@ != "body"@) by { assert("head"@[0] != "body"@[0]); }
    assert("head"@ != "hand"@) by { assert("head"@[1] != "hand"@[1]); }
    assert("head"@ != "leg"@) by { assert("head"@.len() != "leg"@.len()); }
    assert("head"@ != "foot"@) by { assert("head"@[0] != "foot"@[0]); }
    assert("body"@ != "hand"@) by { assert("body"@[0] != "hand"@[0]); }
    assert("body"@ != "leg"@) by { assert("body"@.len() != "leg"@.len()); }
    assert("body"@ != "foot"@) by { assert("body"@[0] != "foot"@[0]); }
    assert("hand"@ != "leg"@) by { assert("hand"@.len() != "leg"@.len()); }
    assert("hand"@ != "foot"@) by { assert("hand"@[0] != "foot"@[0]); }
    assert("leg"@ != "foot"@) by { assert("leg"@.len() != "foot"@.len()); }
}

} // verus!
