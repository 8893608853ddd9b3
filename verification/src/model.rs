use vstd::prelude::*;
use std::collections::BTreeMap;

use crate::form::FormData;
use crate::named_map::{NamedMap, entries_map, keys_distinct, has_key, lemma_entries_map_dom, lemma_entries_map_value, lemma_has_key_take_step};

verus! {

/// The name that a form gives to an empty job choice.
pub const NO_JOB: &'static str = "(None)";

/// The strengths at which an affinity bonus of a job becomes active.
pub const FIRST_THRESHOLD: u32 = 250;

pub const SECOND_THRESHOLD: u32 = 400;

pub const THIRD_THRESHOLD: u32 = 600;

/// The tier of a job.
#[derive(Clone, Copy, Debug, PartialEq, Eq, Structural)]
pub enum JobTier {
    Basic,
    Advanced,
    Expert,
}

/// The name under which a tier is shown.
pub open spec fn tier_name(tier: JobTier) -> Seq<char> {
    match tier {
        JobTier::Basic => "Basic"@,
        JobTier::Advanced => "Advanced"@,
        JobTier::Expert => "Expert"@,
    }
}

impl JobTier {
    /// The name under which the tier is shown ("Basic", "Advanced" or "Expert").
    pub fn name(&self) -> (s: &'static str)
        ensures
            s@ == tier_name(*self),
    {
        match self {
            JobTier::Basic => "Basic",
            JobTier::Advanced => "Advanced",
            JobTier::Expert => "Expert",
        }
    }
}

/// The colour class of a job.
#[derive(Clone, Copy, Debug, PartialEq, Eq, Structural)]
pub enum JobType {
    Red,
    Orange,
    Green,
    Blue,
}

/// One bonus that a job grants at a given affinity strength.
#[derive(Debug)]
pub struct AffinityBonus {
    pub name: String,
    pub description: String,
}

impl Clone for AffinityBonus {
    fn clone(&self) -> (b: Self)
        ensures
            b == *self,
    {
        AffinityBonus { name: self.name.clone(), description: self.description.clone() }
    }
}

/// The three bonuses of a job, one per threshold.
#[derive(Debug)]
pub struct AffinityBonuses {
    pub _250: AffinityBonus,
    pub _400: AffinityBonus,
    pub _600: AffinityBonus,
}

impl AffinityBonuses {
    /// The bonuses that are active at the given strength, keyed by their threshold.
    pub open spec fn active_at(self, strength: u32) -> Map<u32, AffinityBonus> {
        let first = if strength >= FIRST_THRESHOLD {
            Map::empty().insert(FIRST_THRESHOLD, self._250)
        } else {
            Map::empty()
        };
        let second = if strength >= SECOND_THRESHOLD {
            first.insert(SECOND_THRESHOLD, self._400)
        } else {
            first
        };
        if strength >= THIRD_THRESHOLD {
            second.insert(THIRD_THRESHOLD, self._600)
        } else {
            second
        }
    }

    /// Returns the active bonuses in a map ordered by threshold: each bonus whose
    /// threshold the strength reaches.
    pub fn get_active_affinity_bonuses(&self, affinity_strength: u32) -> (r: BTreeMap<
        u32,
        AffinityBonus,
    >)
        ensures
            r@ == self.active_at(affinity_strength),
    {
        let mut result: BTreeMap<u32, AffinityBonus> = BTreeMap::new();
        if affinity_strength >= FIRST_THRESHOLD {
            result.insert(FIRST_THRESHOLD, self._250.clone());
        }
        if affinity_strength >= SECOND_THRESHOLD {
            result.insert(SECOND_THRESHOLD, self._400.clone());
        }
        if affinity_strength >= THIRD_THRESHOLD {
            result.insert(THIRD_THRESHOLD, self._600.clone());
        }
        result
    }
}

/// A job as the job data describes it.
#[derive(Debug)]
pub struct Job {
    pub name: String,
    pub tier: JobTier,
    pub job_type: JobType,
    pub affinity_bonuses: AffinityBonuses,
}

/// The text views of a list of names.
pub open spec fn name_views(names: Seq<String>) -> Seq<Seq<char>> {
    names.map_values(|s: String| s@)
}

/// What one equipment slot contributes: each of its jobs at the slot's strength.
#[derive(Debug)]
pub struct EquipmentAffinity {
    pub slot: String,
    pub job_names: Vec<String>,
    pub strength: u32,
}

/// An equipment slot as plain values.
#[verifier::ext_equal]
pub struct EquipmentAffinityView {
    pub slot: Seq<char>,
    pub job_names: Seq<Seq<char>>,
    pub strength: u32,
}

impl View for EquipmentAffinity {
    type V = EquipmentAffinityView;

    open spec fn view(&self) -> EquipmentAffinityView {
        EquipmentAffinityView {
            slot: self.slot@,
            job_names: name_views(self.job_names@),
            strength: self.strength,
        }
    }
}

impl EquipmentAffinity {
    /// Each job of the slot once, at the slot's strength: a job named twice counts once.
    pub fn get_affinity_strengths(&self) -> (m: NamedMap<u32>)
        ensures
            forall|j: Seq<char>| m@.contains_key(j) <==> self@.job_names.contains(j),
            forall|j: Seq<char>| m@.contains_key(j) ==> m@[j] == self.strength,
    {
        let mut m: NamedMap<u32> = NamedMap::new();
        let n = self.job_names.len();
        for i in 0..n
            invariant
                n == self.job_names@.len(),
                forall|j: Seq<char>|
                    m@.contains_key(j) <==> exists|k: int|
                        0 <= k < i && (#[trigger] self.job_names@[k])@ == j,
                forall|j: Seq<char>| m@.contains_key(j) ==> m@[j] == self.strength,
        {
            m.insert(self.job_names[i].clone(), self.strength);
        }
        proof {
            assert forall|j: Seq<char>| m@.contains_key(j) <==> self@.job_names.contains(j) by {
                if m@.contains_key(j) {
                    let k = choose|k: int| 0 <= k < n && (#[trigger] self.job_names@[k])@ == j;
                    assert(self@.job_names[k] == j);
                }
                if self@.job_names.contains(j) {
                    let k = choose|k: int| 0 <= k < self@.job_names.len() && self@.job_names[k] == j;
                    assert(self.job_names@[k]@ == j);
                }
            }
        }
        m
    }
}

/// The jobs chosen in a slot's two job fields, leaving out an empty choice.
pub open spec fn chosen_jobs(job1: Seq<char>, job2: Seq<char>) -> Seq<Seq<char>> {
    let first = if job1 == NO_JOB@ {
        Seq::empty()
    } else {
        seq![job1]
    };
    if job2 == NO_JOB@ {
        first
    } else {
        first.push(job2)
    }
}

/// A slot's contribution as plain values.
pub open spec fn slot_view(slot: Seq<char>, job1: Seq<char>, job2: Seq<char>, strength: u32) -> EquipmentAffinityView {
    EquipmentAffinityView { slot, job_names: chosen_jobs(job1, job2), strength }
}

/// The seven equipment slots of a form, in order.
pub open spec fn equipment_of_form(f: FormData) -> Seq<EquipmentAffinityView> {
    seq![
        slot_view("weapon"@, f.weapon_job1@, f.weapon_job2@, f.weapon_strength),
        slot_view("shield"@, f.shield_job1@, f.shield_job2@, f.shield_strength),
        slot_view("head"@, f.head_job1@, f.head_job2@, f.head_strength),
        slot_view("chest"@, f.body_job1@, f.body_job2@, f.body_strength),
        slot_view("hands"@, f.hand_job1@, f.hand_job2@, f.hand_strength),
        slot_view("legs"@, f.leg_job1@, f.leg_job2@, f.leg_strength),
        slot_view("feet"@, f.foot_job1@, f.foot_job2@, f.foot_strength),
    ]
}

/// The views of a list of slots.
pub open spec fn equipment_views(es: Seq<EquipmentAffinity>) -> Seq<EquipmentAffinityView> {
    es.map_values(|e: EquipmentAffinity| e@)
}

/// One slot's contribution, from its name, its two job fields and its strength.
fn slot_affinity(slot: &str, job1: &String, job2: &String, strength: u32) -> (e: EquipmentAffinity)
    ensures
        e@ == slot_view(slot@, job1@, job2@, strength),
{
    let no_job = NO_JOB.to_owned();
    let mut job_names: Vec<String> = Vec::new();
    if *job1 == no_job {
    } else {
        job_names.push(job1.clone());
    }
    if *job2 == no_job {
    } else {
        job_names.push(job2.clone());
    }
    let e = EquipmentAffinity { slot: slot.to_owned(), job_names, strength };
    assert(e@.job_names =~= chosen_jobs(job1@, job2@));
    e
}

/// The seven equipment slots of a form with the jobs chosen in each, an empty
/// choice left out.
pub fn map_formdata_to_equipment_affinities(form_data: &FormData) -> (es: Vec<EquipmentAffinity>)
    ensures
        equipment_views(es@) == equipment_of_form(*form_data),
{
    let f = form_data;
    let mut es: Vec<EquipmentAffinity> = Vec::new();
    es.push(slot_affinity("weapon", &f.weapon_job1, &f.weapon_job2, f.weapon_strength));
    es.push(slot_affinity("shield", &f.shield_job1, &f.shield_job2, f.shield_strength));
    es.push(slot_affinity("head", &f.head_job1, &f.head_job2, f.head_strength));
    es.push(slot_affinity("chest", &f.body_job1, &f.body_job2, f.body_strength));
    es.push(slot_affinity("hands", &f.hand_job1, &f.hand_job2, f.hand_strength));
    es.push(slot_affinity("legs", &f.leg_job1, &f.leg_job2, f.leg_strength));
    es.push(slot_affinity("feet", &f.foot_job1, &f.foot_job2, f.foot_strength));
    assert(equipment_views(es@) =~= equipment_of_form(*form_data));
    es
}

/// What one slot adds to the sum of a job: its strength if the job is among its jobs.
pub open spec fn slot_contribution(e: EquipmentAffinityView, job: Seq<char>) -> int {
    if e.job_names.contains(job) {
        e.strength as int
    } else {
        0
    }
}

/// The sum of the strengths of the slots that name the job.
pub open spec fn equipment_total(es: Seq<EquipmentAffinityView>, job: Seq<char>) -> int
    decreases es.len(),
{
    if es.len() == 0 {
        0
    } else {
        equipment_total(es.drop_last(), job) + slot_contribution(es.last(), job)
    }
}

/// Some slot names the job.
pub open spec fn worn_in(es: Seq<EquipmentAffinityView>, job: Seq<char>) -> bool {
    exists|i: int| 0 <= i < es.len() && (#[trigger] es[i]).job_names.contains(job)
}

/// The active job counts for the job: it is this job and not the empty choice.
pub open spec fn counts_active(f: FormData, job: Seq<char>) -> bool {
    f.active_job@ != NO_JOB@ && job == f.active_job@
}

/// The job has a sum: a slot names it (an empty name aside), or it is the active job.
pub open spec fn in_sums(f: FormData, job: Seq<char>) -> bool {
    (job.len() > 0 && worn_in(equipment_of_form(f), job)) || counts_active(f, job)
}

/// The sum of a job: the strengths of the slots that name it (an empty name
/// aside), plus the active job's strength if it is the active job.
pub open spec fn sum_for(f: FormData, job: Seq<char>) -> int {
    (if job.len() > 0 {
        equipment_total(equipment_of_form(f), job)
    } else {
        0
    }) + (if counts_active(f, job) {
        f.active_job_strength as int
    } else {
        0
    })
}

/// Every sum of the form fits in a `u32`.
pub open spec fn sums_fit(f: FormData) -> bool {
    forall|job: Seq<char>| in_sums(f, job) ==> sum_for(f, job) <= u32::MAX
}

/// A slot more adds its contribution.
pub proof fn lemma_total_step(es: Seq<EquipmentAffinityView>, i: int, job: Seq<char>)
    requires
        0 <= i < es.len(),
    ensures
        equipment_total(es.take(i + 1), job) == equipment_total(es.take(i), job)
            + slot_contribution(es[i], job),
        worn_in(es.take(i + 1), job) <==> (worn_in(es.take(i), job) || es[i].job_names.contains(job)),
{
    assert(es.take(i + 1).drop_last() =~= es.take(i));
    if worn_in(es.take(i + 1), job) {
        let k = choose|k: int| 0 <= k < i + 1 && (#[trigger] es.take(i + 1)[k]).job_names.contains(job);
        if k < i {
            assert(es.take(i)[k] == es[k]);
        }
    }
    if worn_in(es.take(i), job) {
        let k = choose|k: int| 0 <= k < i && (#[trigger] es.take(i)[k]).job_names.contains(job);
        assert(es.take(i + 1)[k] == es[k]);
    }
    if es[i].job_names.contains(job) {
        assert(es.take(i + 1)[i] == es[i]);
    }
}

/// Sums only grow as slots are added.
pub proof fn lemma_total_monotone(es: Seq<EquipmentAffinityView>, n: int, job: Seq<char>)
    requires
        0 <= n <= es.len(),
    ensures
        equipment_total(es.take(n), job) <= equipment_total(es, job),
    decreases es.len() - n,
{
    if n < es.len() {
        lemma_total_step(es, n, job);
        lemma_total_monotone(es, n + 1, job);
    } else {
        assert(es.take(n) =~= es);
    }
}

/// A job that no slot names sums to nothing.
pub proof fn lemma_total_unworn(es: Seq<EquipmentAffinityView>, job: Seq<char>)
    requires
        !worn_in(es, job),
    ensures
        equipment_total(es, job) == 0,
    decreases es.len(),
{
    if es.len() > 0 {
        let t = es.drop_last();
        assert forall|i: int| 0 <= i < t.len() implies !(#[trigger] t[i]).job_names.contains(job) by {
            assert(t[i] == es[i]);
        }
        assert(!es[es.len() - 1].job_names.contains(job));
        lemma_total_unworn(t, job);
    }
}

/// Adds the value to the sum under the key, starting from zero for a new key.
pub fn accumulate_or_insert_into_hashmap(hashmap: &mut NamedMap<u32>, key: String, value: u32)
    requires
        old(hashmap)@.contains_key(key@) ==> old(hashmap)@[key@] + value <= u32::MAX,
    ensures
        final(hashmap)@ == old(hashmap)@.insert(
            key@,
            (if old(hashmap)@.contains_key(key@) {
                old(hashmap)@[key@] + value
            } else {
                value as int
            }) as u32,
        ),
{
    let current: u32 = match hashmap.get(key.as_str()) {
        Some(v) => *v,
        None => 0,
    };
    hashmap.insert(key, current + value);
}

/// The sum of affinity strengths of each job that the form names: every slot
/// that names a job (an empty name aside, a job named twice in a slot counted
/// once) adds its strength, and the active job, unless it is the empty choice,
/// adds its own. `None` exactly when some sum does not fit in a `u32`.
pub fn try_job_affinity_sums(form_data: &FormData) -> (r: Option<NamedMap<u32>>)
    ensures
        r is Some <==> sums_fit(*form_data),
        r matches Some(m) ==> forall|job: Seq<char>| m@.contains_key(job) <==> in_sums(*form_data, job),
        r matches Some(m) ==> forall|job: Seq<char>| #[trigger] m@.contains_key(job) ==> m@[job]
            == sum_for(*form_data, job),
{
    let ghost f = *form_data;
    let equipment = map_formdata_to_equipment_affinities(form_data);
    let ghost es = equipment_views(equipment@);
    let mut sums: NamedMap<u32> = NamedMap::new();
    let n = equipment.len();
    for i in 0..n
        invariant
            n == equipment@.len(),
            es == equipment_views(equipment@),
            es == equipment_of_form(f),
            f == *form_data,
            forall|job: Seq<char>|
                sums@.contains_key(job) <==> (job.len() > 0 && worn_in(es.take(i as int), job)),
            forall|job: Seq<char>| #[trigger]
                sums@.contains_key(job) ==> sums@[job] == equipment_total(es.take(i as int), job),
    {
        let strengths = equipment[i].get_affinity_strengths();
        let entries = strengths.entries();
        let ghost e = es[i as int];
        assert(e == equipment@[i as int]@);
        let ghost ents = entries@;
        let m = entries.len();
        for k in 0..m
            invariant
                m == ents.len(),
                ents == entries@,
                keys_distinct(ents),
                entries_map(ents) == strengths@,
                forall|job: Seq<char>| strengths@.contains_key(job) <==> e.job_names.contains(job),
                forall|job: Seq<char>| strengths@.contains_key(job) ==> strengths@[job] == e.strength,
                0 <= i < es.len(),
                e == es[i as int],
                es == equipment_of_form(f),
                f == *form_data,
                forall|job: Seq<char>|
                    sums@.contains_key(job) <==> (job.len() > 0 && (worn_in(es.take(i as int), job)
                        || has_key(ents.take(k as int), job))),
                forall|job: Seq<char>| #[trigger]
                    sums@.contains_key(job) ==> sums@[job] == equipment_total(es.take(i as int), job)
                        + (if has_key(ents.take(k as int), job) {
                        e.strength as int
                    } else {
                        0
                    }),
        {
            let name = &entries[k].0;
            let strength = entries[k].1;
            proof {
                lemma_entries_map_value(ents, k as int);
                lemma_entries_map_dom(ents, name@);
                assert(strengths@.contains_key(name@));
                assert(strength == e.strength);
                assert(e.job_names.contains(name@));
                if has_key(ents.take(k as int), name@) {
                    let x = choose|x: int| 0 <= x < k && (#[trigger] ents.take(k as int)[x]).0@ == name@;
                    assert(ents[x] == ents.take(k as int)[x]);
                }
                assert forall|job: Seq<char>| has_key(ents.take(k + 1), job) <==> (has_key(ents.take(k as int), job) || ents[k as int].0@ == job) by {
                    lemma_has_key_take_step(ents, k as int, job);
                }
            }
            if name.as_str().is_empty() {
            } else {
                let current: u32 = match sums.get(name.as_str()) {
                    Some(v) => *v,
                    None => 0,
                };
                proof {
                    if !sums@.contains_key(name@) {
                        lemma_total_unworn(es.take(i as int), name@);
                    }
                    assert(current == equipment_total(es.take(i as int), name@));
                }
                if current > u32::MAX - strength {
                    proof {
                        lemma_total_step(es, i as int, name@);
                        lemma_total_monotone(es, i + 1, name@);
                        assert(worn_in(es, name@)) by {
                            assert(es[i as int].job_names.contains(name@));
                        }
                        assert(name@.len() > 0);
                        assert(in_sums(f, name@));
                        assert(sum_for(f, name@) > u32::MAX);
                    }
                    return None;
                }
                accumulate_or_insert_into_hashmap(&mut sums, name.clone(), strength);
            }
        }
        proof {
            assert(ents.take(m as int) =~= ents);
            assert forall|job: Seq<char>| has_key(ents, job) <==> e.job_names.contains(job) by {
                lemma_entries_map_dom(ents, job);
            }
            assert forall|job: Seq<char>| #[trigger] equipment_total(es.take(i + 1), job) == equipment_total(es.take(i as int), job) + slot_contribution(es[i as int], job) by {
                lemma_total_step(es, i as int, job);
            }
            assert forall|job: Seq<char>| #[trigger] worn_in(es.take(i + 1), job) <==> (worn_in(es.take(i as int), job) || es[i as int].job_names.contains(job)) by {
                lemma_total_step(es, i as int, job);
            }
        }
    }
    proof {
        assert(es.take(n as int) =~= es);
    }
    let no_job = NO_JOB.to_owned();
    if form_data.active_job == no_job {
    } else {
        let strength = form_data.active_job_strength;
        let current: u32 = match sums.get(form_data.active_job.as_str()) {
            Some(v) => *v,
            None => 0,
        };
        let ghost active = f.active_job@;
        proof {
            if active.len() > 0 && !sums@.contains_key(active) {
                lemma_total_unworn(es, active);
            }
            assert(current == (if active.len() > 0 { equipment_total(es, active) } else { 0 }));
        }
        if current > u32::MAX - strength {
            proof {
                assert(in_sums(f, active));
                assert(sum_for(f, active) > u32::MAX);
            }
            return None;
        }
        accumulate_or_insert_into_hashmap(&mut sums, form_data.active_job.clone(), strength);
    }
    proof {
        assert forall|job: Seq<char>| sums@.contains_key(job) <==> in_sums(f, job) by {}
        assert forall|job: Seq<char>| #[trigger] sums@.contains_key(job) implies sums@[job] == sum_for(f, job) by {}
        assert forall|job: Seq<char>| in_sums(f, job) implies sum_for(f, job) <= u32::MAX by {
            assert(sums@.contains_key(job));
        }
    }
    Some(sums)
}

/// The sum of affinity strengths of each job that the form names (see
/// [`try_job_affinity_sums`]); the form's sums must fit in a `u32`.
pub fn get_job_affinity_sums_from_form_data(form_data: &FormData) -> (m: NamedMap<u32>)
    requires
        sums_fit(*form_data),
    ensures
        forall|job: Seq<char>| m@.contains_key(job) <==> in_sums(*form_data, job),
        forall|job: Seq<char>| #[trigger] m@.contains_key(job) ==> m@[job] == sum_for(*form_data, job),
{
    match try_job_affinity_sums(form_data) {
        Some(m) => m,
        None => NamedMap::new(),
    }
}

/// The strength of a job in the sums, zero where it has none.
pub open spec fn strength_in(sums: Map<Seq<char>, u32>, job: Seq<char>) -> u32 {
    if sums.contains_key(job) {
        sums[job]
    } else {
        0
    }
}

/// The active bonuses of each job of the list whose strength is not zero; where
/// two jobs share a name, the later one counts.
pub open spec fn active_bonuses_of(jobs: Seq<Job>, sums: Map<Seq<char>, u32>) -> Map<
    Seq<char>,
    Map<u32, AffinityBonus>,
>
    decreases jobs.len(),
{
    if jobs.len() == 0 {
        Map::empty()
    } else {
        let earlier = active_bonuses_of(jobs.drop_last(), sums);
        let job = jobs.last();
        let strength = strength_in(sums, job.name@);
        if strength == 0 {
            earlier
        } else {
            earlier.insert(job.name@, job.affinity_bonuses.active_at(strength))
        }
    }
}

/// The contents of a map of bonus maps.
pub open spec fn bonus_maps_view(m: Map<Seq<char>, BTreeMap<u32, AffinityBonus>>) -> Map<
    Seq<char>,
    Map<u32, AffinityBonus>,
> {
    m.map_values(|b: BTreeMap<u32, AffinityBonus>| b@)
}

/// For each job of the job data whose affinity strength in the sums is not zero,
/// its active bonuses at that strength.
pub fn get_active_affinity_bonuses(job_affinity_sums: NamedMap<u32>, jobs_data: &Vec<Job>) -> (r:
    NamedMap<BTreeMap<u32, AffinityBonus>>)
    ensures
        bonus_maps_view(r@) == active_bonuses_of(jobs_data@, job_affinity_sums@),
{
    let mut result: NamedMap<BTreeMap<u32, AffinityBonus>> = NamedMap::new();
    let n = jobs_data.len();
    for i in 0..n
        invariant
            n == jobs_data@.len(),
            bonus_maps_view(result@) == active_bonuses_of(jobs_data@.take(i as int), job_affinity_sums@),
    {
        let job = &jobs_data[i];
        let job_affinity_strength: u32 = match job_affinity_sums.get(job.name.as_str()) {
            Some(v) => *v,
            None => 0,
        };
        let ghost before = result@;
        proof {
            assert(jobs_data@.take(i + 1).drop_last() =~= jobs_data@.take(i as int));
            assert(jobs_data@.take(i + 1).last() == jobs_data@[i as int]);
        }
        if job_affinity_strength == 0 {
        } else {
            let active_affinity_bonuses = job.affinity_bonuses.get_active_affinity_bonuses(
                job_affinity_strength,
            );
            result.insert(job.name.clone(), active_affinity_bonuses);
            assert(bonus_maps_view(result@) =~= bonus_maps_view(before).insert(
                job.name@,
                active_affinity_bonuses@,
            ));
        }
    }
    proof {
        assert(jobs_data@.take(n as int) =~= jobs_data@);
    }
    result
}

/// The names of the equipment slots, in order.
pub open spec fn equipment_slot_names() -> Seq<Seq<char>> {
    seq!["weapon"@, "shield"@, "head"@, "chest"@, "hands"@, "legs"@, "feet"@]
}

/// The names of the equipment slots: weapon, shield, head, chest, hands, legs, feet.
pub fn get_equipment_slot_names() -> (names: Vec<String>)
    ensures
        name_views(names@) == equipment_slot_names(),
{
    let mut names: Vec<String> = Vec::new();
    names.push("weapon".to_owned());
    names.push("shield".to_owned());
    names.push("head".to_owned());
    names.push("chest".to_owned());
    names.push("hands".to_owned());
    names.push("legs".to_owned());
    names.push("feet".to_owned());
    assert(name_views(names@) =~= equipment_slot_names());
    names
}

} // verus!
