use sop_builds::form::FormData;
use sop_builds::model::{
    accumulate_or_insert_into_hashmap, get_active_affinity_bonuses, get_equipment_slot_names,
    get_job_affinity_sums_from_form_data, map_formdata_to_equipment_affinities,
    try_job_affinity_sums, AffinityBonus, AffinityBonuses, EquipmentAffinity, Job, JobTier,
    JobType,
};
use sop_builds::named_map::NamedMap;

fn bonus(name: &str) -> AffinityBonus {
    AffinityBonus { name: name.to_string(), description: format!("{} description", name) }
}

fn bonuses(prefix: &str) -> AffinityBonuses {
    AffinityBonuses {
        _250: bonus(&format!("{} 250", prefix)),
        _400: bonus(&format!("{} 400", prefix)),
        _600: bonus(&format!("{} 600", prefix)),
    }
}

fn job(name: &str, tier: JobTier) -> Job {
    Job {
        name: name.to_string(),
        tier,
        job_type: JobType::Red,
        affinity_bonuses: bonuses(name),
    }
}

fn sample_form() -> FormData {
    let mut f = FormData::new();
    f.active_job = "Berserker".to_string();
    f.active_job_strength = 800;
    f.weapon_type = "2H".to_string();
    f.body_type = "body-only".to_string();
    f.weapon_job1 = "Samurai".to_string();
    f.weapon_job2 = "Marauder".to_string();
    f.weapon_strength = 350;
    f.shield_job1 = "(None)".to_string();
    f.shield_job2 = "(None)".to_string();
    f.shield_strength = 0;
    f.head_job1 = "Samurai".to_string();
    f.head_job2 = "Marauder".to_string();
    f.head_strength = 250;
    f.body_job1 = "Dragoon".to_string();
    f.body_job2 = "Warrior".to_string();
    f.body_strength = 250;
    f.hand_job1 = "Dragoon".to_string();
    f.hand_job2 = "Dark Knight".to_string();
    f.hand_strength = 250;
    f.leg_job1 = "Monk".to_string();
    f.leg_job2 = "Dark Knight".to_string();
    f.leg_strength = 250;
    f.foot_job1 = "Red Mage".to_string();
    f.foot_job2 = "Sage".to_string();
    f.foot_strength = 250;
    f
}

#[test]
fn new_form_has_the_defaults() {
    let f = FormData::new();
    assert_eq!(f.active_job, "");
    assert_eq!(f.active_job_strength, 0);
    assert_eq!(f.weapon_type, "2H");
    assert_eq!(f.body_type, "body-only");
    assert_eq!(f.weapon_strength, 350);
    assert_eq!(f.shield_strength, 75);
    assert_eq!(f.head_strength, 250);
    assert_eq!(f.body_strength, 250);
    assert_eq!(f.hand_strength, 250);
    assert_eq!(f.leg_strength, 250);
    assert_eq!(f.foot_strength, 250);
    assert_eq!(f.weapon_job1, "");
    assert_eq!(f.foot_job2, "");
}

#[test]
fn equipment_slot_names_in_order() {
    assert_eq!(
        get_equipment_slot_names(),
        vec!["weapon", "shield", "head", "chest", "hands", "legs", "feet"]
    );
}

#[test]
fn form_maps_to_seven_slots_without_empty_choices() {
    let f = sample_form();
    let es = map_formdata_to_equipment_affinities(&f);
    assert_eq!(es.len(), 7);
    let slots: Vec<&str> = es.iter().map(|e| e.slot.as_str()).collect();
    assert_eq!(slots, vec!["weapon", "shield", "head", "chest", "hands", "legs", "feet"]);
    assert_eq!(es[0].job_names, vec!["Samurai", "Marauder"]);
    assert_eq!(es[0].strength, 350);
    assert!(es[1].job_names.is_empty());
    assert_eq!(es[3].job_names, vec!["Dragoon", "Warrior"]);
    assert_eq!(es[6].job_names, vec!["Red Mage", "Sage"]);
}

#[test]
fn one_empty_choice_is_left_out() {
    let mut f = FormData::new();
    f.weapon_job1 = "(None)".to_string();
    f.weapon_job2 = "Monk".to_string();
    let es = map_formdata_to_equipment_affinities(&f);
    assert_eq!(es[0].job_names, vec!["Monk"]);
}

#[test]
fn affinity_strengths_count_a_repeated_job_once() {
    let e = EquipmentAffinity {
        slot: "weapon".to_string(),
        job_names: vec!["Monk".to_string(), "Monk".to_string(), "Sage".to_string()],
        strength: 300,
    };
    let m = e.get_affinity_strengths();
    assert_eq!(m.len(), 2);
    assert_eq!(m.get("Monk"), Some(&300));
    assert_eq!(m.get("Sage"), Some(&300));
    assert_eq!(m.get("Warrior"), None);
}

#[test]
fn sums_of_the_sample_build() {
    let f = sample_form();
    let sums = get_job_affinity_sums_from_form_data(&f);
    assert_eq!(sums.len(), 9);
    assert_eq!(sums.get("Berserker"), Some(&800));
    assert_eq!(sums.get("Samurai"), Some(&600));
    assert_eq!(sums.get("Marauder"), Some(&600));
    assert_eq!(sums.get("Dragoon"), Some(&500));
    assert_eq!(sums.get("Warrior"), Some(&250));
    assert_eq!(sums.get("Dark Knight"), Some(&500));
    assert_eq!(sums.get("Monk"), Some(&250));
    assert_eq!(sums.get("Red Mage"), Some(&250));
    assert_eq!(sums.get("Sage"), Some(&250));
    assert_eq!(sums.get("(None)"), None);
}

#[test]
fn sums_of_the_initial_form_hold_only_the_empty_active_job() {
    let f = FormData::new();
    let sums = get_job_affinity_sums_from_form_data(&f);
    assert_eq!(sums.len(), 1);
    assert_eq!(sums.get(""), Some(&0));
}

#[test]
fn active_job_adds_to_its_slot_sum() {
    let mut f = sample_form();
    f.active_job = "Samurai".to_string();
    f.active_job_strength = 100;
    let sums = get_job_affinity_sums_from_form_data(&f);
    assert_eq!(sums.get("Samurai"), Some(&700));
    assert_eq!(sums.get("Berserker"), None);
}

#[test]
fn empty_active_choice_adds_nothing() {
    let mut f = sample_form();
    f.active_job = "(None)".to_string();
    let sums = get_job_affinity_sums_from_form_data(&f);
    assert_eq!(sums.len(), 8);
    assert_eq!(sums.get("(None)"), None);
}

#[test]
fn a_sum_too_large_gives_none() {
    let mut f = sample_form();
    f.weapon_strength = u32::MAX;
    assert!(try_job_affinity_sums(&f).is_none());
    let mut g = sample_form();
    g.active_job = "Samurai".to_string();
    g.active_job_strength = u32::MAX - 600;
    let sums = try_job_affinity_sums(&g).expect("fits exactly");
    assert_eq!(sums.get("Samurai"), Some(&u32::MAX));
    g.active_job_strength = u32::MAX - 599;
    assert!(try_job_affinity_sums(&g).is_none());
}

#[test]
fn accumulate_starts_from_zero_and_adds() {
    let mut m: NamedMap<u32> = NamedMap::new();
    accumulate_or_insert_into_hashmap(&mut m, "Monk".to_string(), 250);
    assert_eq!(m.get("Monk"), Some(&250));
    accumulate_or_insert_into_hashmap(&mut m, "Monk".to_string(), 100);
    assert_eq!(m.get("Monk"), Some(&350));
    assert_eq!(m.len(), 1);
}

#[test]
fn bonuses_by_threshold() {
    let b = bonuses("Monk");
    assert!(b.get_active_affinity_bonuses(0).is_empty());
    assert!(b.get_active_affinity_bonuses(249).is_empty());
    let at_250 = b.get_active_affinity_bonuses(250);
    assert_eq!(at_250.keys().copied().collect::<Vec<u32>>(), vec![250]);
    assert_eq!(at_250[&250].name, "Monk 250");
    let at_599 = b.get_active_affinity_bonuses(599);
    assert_eq!(at_599.keys().copied().collect::<Vec<u32>>(), vec![250, 400]);
    let at_600 = b.get_active_affinity_bonuses(600);
    assert_eq!(at_600.keys().copied().collect::<Vec<u32>>(), vec![250, 400, 600]);
    assert_eq!(at_600[&600].description, "Monk 600 description");
}

#[test]
fn stronger_affinity_keeps_bonuses() {
    let b = bonuses("Sage");
    let weak = b.get_active_affinity_bonuses(420);
    let strong = b.get_active_affinity_bonuses(900);
    for (k, v) in weak.iter() {
        assert_eq!(strong[k].name, v.name);
    }
}

#[test]
fn active_bonuses_for_jobs_with_strength() {
    let jobs = vec![
        job("Monk", JobTier::Basic),
        job("Sage", JobTier::Advanced),
        job("Warrior", JobTier::Basic),
    ];
    let mut sums: NamedMap<u32> = NamedMap::new();
    sums.insert("Monk".to_string(), 600);
    sums.insert("Sage".to_string(), 0);
    sums.insert("Berserker".to_string(), 800);
    sums.insert("Warrior".to_string(), 100);
    let active = get_active_affinity_bonuses(sums, &jobs);
    assert_eq!(active.len(), 2);
    let monk = active.get("Monk").expect("monk has bonuses");
    assert_eq!(monk.keys().copied().collect::<Vec<u32>>(), vec![250, 400, 600]);
    assert!(active.get("Sage").is_none());
    assert!(active.get("Berserker").is_none());
    assert!(active.get("Warrior").expect("warrior is listed").is_empty());
}

#[test]
fn later_job_of_the_same_name_wins() {
    let mut second = job("Monk", JobTier::Basic);
    second.affinity_bonuses = bonuses("Other");
    let jobs = vec![job("Monk", JobTier::Basic), second];
    let mut sums: NamedMap<u32> = NamedMap::new();
    sums.insert("Monk".to_string(), 300);
    let active = get_active_affinity_bonuses(sums, &jobs);
    assert_eq!(active.get("Monk").unwrap()[&250].name, "Other 250");
}

#[test]
fn job_tier_names() {
    assert_eq!(JobTier::Basic.name(), "Basic");
    assert_eq!(JobTier::Advanced.name(), "Advanced");
    assert_eq!(JobTier::Expert.name(), "Expert");
}

#[test]
fn cloned_bonus_is_equal() {
    let b = bonus("Monk 250");
    let c = b.clone();
    assert_eq!(c.name, b.name);
    assert_eq!(c.description, b.description);
}
