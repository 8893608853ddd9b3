use sop_builds::form::FormData;
use sop_builds::model::{AffinityBonus, AffinityBonuses, Job, JobTier, JobType};
use sop_builds::named_map::NamedMap;
use sop_builds::page::{
    body_type_label, capitalise_first_letter, is_slot_disabled, job_affinities_by_strength,
    job_names_in_tier, job_tiers, join_capitalised, selected_jobs_and_strength,
};

fn job(name: &str, tier: JobTier) -> Job {
    let b = |t: &str| AffinityBonus { name: t.to_string(), description: String::new() };
    Job {
        name: name.to_string(),
        tier,
        job_type: JobType::Blue,
        affinity_bonuses: AffinityBonuses { _250: b("a"), _400: b("b"), _600: b("c") },
    }
}

#[test]
fn capitalises_the_first_letter() {
    assert_eq!(capitalise_first_letter("weapon"), "Weapon");
    assert_eq!(capitalise_first_letter("Head"), "Head");
    assert_eq!(capitalise_first_letter(""), "");
    assert_eq!(capitalise_first_letter("é"), "É");
    assert_eq!(capitalise_first_letter("ßa"), "SSa");
}

#[test]
fn join_capitalised_keeps_the_rest() {
    assert_eq!(join_capitalised("W".to_string(), "weapon"), "Weapon");
    assert_eq!(join_capitalised("X".to_string(), ""), "X");
}

#[test]
fn shield_disabled_with_two_handed_weapon() {
    let mut f = FormData::new();
    assert!(is_slot_disabled("shield", &f));
    f.weapon_type = "1H".to_string();
    assert!(!is_slot_disabled("shield", &f));
}

#[test]
fn head_and_leg_disabled_by_body_type() {
    let mut f = FormData::new();
    assert!(!is_slot_disabled("head", &f));
    assert!(!is_slot_disabled("leg", &f));
    f.body_type = "body-head".to_string();
    assert!(is_slot_disabled("head", &f));
    assert!(!is_slot_disabled("leg", &f));
    f.body_type = "body-leg".to_string();
    assert!(is_slot_disabled("leg", &f));
    assert!(!is_slot_disabled("head", &f));
    assert!(!is_slot_disabled("weapon", &f));
}

#[test]
fn selections_per_slot() {
    let mut f = FormData::new();
    f.hand_job1 = "Monk".to_string();
    f.hand_job2 = "Sage".to_string();
    f.hand_strength = 123;
    let (a, b, s) = selected_jobs_and_strength("hand", &f);
    assert_eq!(a, "Monk");
    assert_eq!(b, "Sage");
    assert_eq!(s, 123);
    let (_, _, w) = selected_jobs_and_strength("weapon", &f);
    assert_eq!(w, 350);
    let (_, _, sh) = selected_jobs_and_strength("shield", &f);
    assert_eq!(sh, 75);
}

#[test]
fn body_type_labels() {
    assert_eq!(body_type_label("body-only"), "Body");
    assert_eq!(body_type_label("body-head"), "Body + Head");
    assert_eq!(body_type_label("body-leg"), "Body + Legs");
    assert_eq!(body_type_label("other"), "");
}

#[test]
fn tiers_in_order() {
    assert_eq!(job_tiers(), vec![JobTier::Basic, JobTier::Advanced, JobTier::Expert]);
}

#[test]
fn names_of_a_tier_in_list_order() {
    let jobs = vec![
        job("Monk", JobTier::Basic),
        job("Sage", JobTier::Advanced),
        job("Warrior", JobTier::Basic),
        job("Ninja", JobTier::Expert),
    ];
    assert_eq!(job_names_in_tier(&jobs, JobTier::Basic), vec!["Monk", "Warrior"]);
    assert_eq!(job_names_in_tier(&jobs, JobTier::Advanced), vec!["Sage"]);
    assert_eq!(job_names_in_tier(&jobs, JobTier::Expert), vec!["Ninja"]);
}

#[test]
fn affinities_strongest_first_ties_in_entry_order() {
    let mut m: NamedMap<u32> = NamedMap::new();
    m.insert("a".to_string(), 250);
    m.insert("b".to_string(), 600);
    m.insert("c".to_string(), 250);
    m.insert("d".to_string(), 800);
    m.insert("e".to_string(), 0);
    let r = job_affinities_by_strength(&m);
    let got: Vec<(&str, u32)> = r.iter().map(|(n, s)| (n.as_str(), *s)).collect();
    assert_eq!(got, vec![("d", 800), ("b", 600), ("a", 250), ("c", 250), ("e", 0)]);
}

#[test]
fn no_affinities_for_empty_sums() {
    let m: NamedMap<u32> = NamedMap::new();
    assert!(job_affinities_by_strength(&m).is_empty());
}
