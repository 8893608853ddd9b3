use vstd::prelude::*;
use vstd::string::*;

use crate::form::FormData;
use crate::model::{Job, JobTier};
use crate::named_map::NamedMap;

verus! {

/// What the standard library's upper-case mapping makes of a character
/// (one character or more, by the Unicode tables).
pub uninterp spec fn char_uppercase(c: char) -> Seq<char>;

/// Calls `char::to_uppercase` and collects the characters it yields; the
/// contract names the result and says nothing of the Unicode tables.
#[verifier::external_body]
fn uppercase_of(c: char) -> (s: String)
    ensures
        s@ == char_uppercase(c),
{
    c.to_uppercase().collect::<String>()
}

/// The text after its first character (nothing for an empty text).
pub open spec fn after_first(s: Seq<char>) -> Seq<char> {
    if s.len() == 0 {
        Seq::empty()
    } else {
        s.subrange(1, s.len() as int)
    }
}

/// The text with its first character upper-cased.
pub open spec fn capitalised(s: Seq<char>) -> Seq<char> {
    if s.len() == 0 {
        Seq::empty()
    } else {
        char_uppercase(s[0]) + after_first(s)
    }
}

/// Puts the upper-cased first character in front of the rest of the text.
pub fn join_capitalised(first_upper: String, s: &str) -> (r: String)
    ensures
        r@ == first_upper@ + after_first(s@),
{
    let n = s.unicode_len();
    if n == 0 {
        proof {
            assert(first_upper@ + after_first(s@) =~= first_upper@);
        }
        first_upper
    } else {
        let rest = s.substring_char(1, n);
        first_upper.concat(rest)
    }
}

/// The text with its first character upper-cased; the empty text stays empty.
pub fn capitalise_first_letter(s: &str) -> (r: String)
    ensures
        r@ == capitalised(s@),
{
    let n = s.unicode_len();
    if n == 0 {
        String::new()
    } else {
        let first = s.get_char(0);
        join_capitalised(uppercase_of(first), s)
    }
}

/// Whether two texts are the same.
fn same_text(a: &str, b: &str) -> (r: bool)
    ensures
        r == (a@ == b@),
{
    let x: String = a.to_owned();
    let y: String = b.to_owned();
    x == y
}

/// A slot of the equipment form is greyed out: the shield with a two-handed
/// weapon, the head with body-and-head equipment, the legs with body-and-legs equipment.
pub open spec fn slot_disabled(slot: Seq<char>, f: FormData) -> bool {
    ||| slot == "shield"@ && f.weapon_type@ == "2H"@
    ||| slot == "head"@ && f.body_type@ == "body-head"@
    ||| slot == "leg"@ && f.body_type@ == "body-leg"@
}

/// Whether the slot is greyed out in the equipment form.
pub fn is_slot_disabled(slot_name: &str, form_data: &FormData) -> (b: bool)
    ensures
        b == slot_disabled(slot_name@, *form_data),
{
    (same_text(slot_name, "shield") && same_text(form_data.weapon_type.as_str(), "2H")) || (
    same_text(slot_name, "head") && same_text(form_data.body_type.as_str(), "body-head")) || (
    same_text(slot_name, "leg") && same_text(form_data.body_type.as_str(), "body-leg"))
}

/// The slots of the equipment form.
pub open spec fn is_form_slot(slot: Seq<char>) -> bool {
    ||| slot == "weapon"@
    ||| slot == "shield"@
    ||| slot == "head"@
    ||| slot == "body"@
    ||| slot == "hand"@
    ||| slot == "leg"@
    ||| slot == "foot"@
}

/// The two jobs and the strength that the form holds for a slot of the equipment form.
pub open spec fn slot_choice(slot: Seq<char>, f: FormData) -> (Seq<char>, Seq<char>, u32) {
    if slot == "weapon"@ {
        (f.weapon_job1@, f.weapon_job2@, f.weapon_strength)
    } else if slot == "shield"@ {
        (f.shield_job1@, f.shield_job2@, f.shield_strength)
    } else if slot == "head"@ {
        (f.head_job1@, f.head_job2@, f.head_strength)
    } else if slot == "body"@ {
        (f.body_job1@, f.body_job2@, f.body_strength)
    } else if slot == "hand"@ {
        (f.hand_job1@, f.hand_job2@, f.hand_strength)
    } else if slot == "leg"@ {
        (f.leg_job1@, f.leg_job2@, f.leg_strength)
    } else {
        (f.foot_job1@, f.foot_job2@, f.foot_strength)
    }
}

/// The two jobs and the strength that the form holds for a slot of the equipment form.
pub fn selected_jobs_and_strength(slot_name: &str, form_data: &FormData) -> (r: (String, String, u32))
    requires
        is_form_slot(slot_name@),
    ensures
        (r.0@, r.1@, r.2) == slot_choice(slot_name@, *form_data),
{
    let f = form_data;
    if same_text(slot_name, "weapon") {
        (f.weapon_job1.clone(), f.weapon_job2.clone(), f.weapon_strength)
    } else if same_text(slot_name, "shield") {
        (f.shield_job1.clone(), f.shield_job2.clone(), f.shield_strength)
    } else if same_text(slot_name, "head") {
        (f.head_job1.clone(), f.head_job2.clone(), f.head_strength)
    } else if same_text(slot_name, "body") {
        (f.body_job1.clone(), f.body_job2.clone(), f.body_strength)
    } else if same_text(slot_name, "hand") {
        (f.hand_job1.clone(), f.hand_job2.clone(), f.hand_strength)
    } else if same_text(slot_name, "leg") {
        (f.leg_job1.clone(), f.leg_job2.clone(), f.leg_strength)
    } else {
        (f.foot_job1.clone(), f.foot_job2.clone(), f.foot_strength)
    }
}

/// The label of a body equipment type.
pub open spec fn body_type_label_of(value: Seq<char>) -> Seq<char> {
    if value == "body-only"@ {
        "Body"@
    } else if value == "body-head"@ {
        "Body + Head"@
    } else if value == "body-leg"@ {
        "Body + Legs"@
    } else {
        ""@
    }
}

/// The label under which a body equipment type is offered; empty for an unknown one.
pub fn body_type_label(value: &str) -> (label: &'static str)
    ensures
        label@ == body_type_label_of(value@),
{
    if same_text(value, "body-only") {
        "Body"
    } else if same_text(value, "body-head") {
        "Body + Head"
    } else if same_text(value, "body-leg") {
        "Body + Legs"
    } else {
        ""
    }
}

/// The job tiers in the order in which the job lists show them.
pub fn job_tiers() -> (tiers: Vec<JobTier>)
    ensures
        tiers@ == seq![JobTier::Basic, JobTier::Advanced, JobTier::Expert],
{
    let mut tiers: Vec<JobTier> = Vec::new();
    tiers.push(JobTier::Basic);
    tiers.push(JobTier::Advanced);
    tiers.push(JobTier::Expert);
    tiers
}

/// The names of the jobs of a tier, in the order of the list.
pub open spec fn names_in_tier(jobs: Seq<Job>, tier: JobTier) -> Seq<Seq<char>>
    decreases jobs.len(),
{
    if jobs.len() == 0 {
        Seq::empty()
    } else {
        let earlier = names_in_tier(jobs.drop_last(), tier);
        if jobs.last().tier == tier {
            earlier.push(jobs.last().name@)
        } else {
            earlier
        }
    }
}

/// The names of the jobs of a tier, in the order of the list.
pub fn job_names_in_tier(jobs: &[Job], tier: JobTier) -> (names: Vec<String>)
    ensures
        names@.map_values(|s: String| s@) == names_in_tier(jobs@, tier),
{
    let mut names: Vec<String> = Vec::new();
    let n = jobs.len();
    for i in 0..n
        invariant
            n == jobs@.len(),
            names@.map_values(|s: String| s@) == names_in_tier(jobs@.take(i as int), tier),
    {
        proof {
            assert(jobs@.take(i + 1).drop_last() =~= jobs@.take(i as int));
            assert(jobs@.take(i + 1).last() == jobs@[i as int]);
        }
        let ghost before = names@;
        if jobs[i].tier == tier {
            names.push(jobs[i].name.clone());
            assert(names@.map_values(|s: String| s@) =~= before.map_values(|s: String| s@).push(jobs@[i as int].name@));
        }
    }
    proof {
        assert(jobs@.take(n as int) =~= jobs@);
    }
    names
}

/// A list of job names with strengths as plain values.
pub open spec fn pair_views(s: Seq<(String, u32)>) -> Seq<(Seq<char>, u32)> {
    s.map_values(|e: (String, u32)| (e.0@, e.1))
}

/// The first `n` entries of `src` stand in `out` by strength, strongest first,
/// entries of equal strength in their order in `src`; `origin` tells where in
/// `src` each entry of `out` comes from.
pub open spec fn arranged_prefix(
    src: Seq<(Seq<char>, u32)>,
    out: Seq<(Seq<char>, u32)>,
    origin: Seq<int>,
    n: int,
) -> bool {
    &&& out.len() == n
    &&& origin.len() == n
    &&& forall|k: int| 0 <= k < n ==> 0 <= #[trigger] origin[k] < n && out[k] == src[origin[k]]
    &&& forall|a: int, b: int| 0 <= a < b < n ==> #[trigger] origin[a] != #[trigger] origin[b]
    &&& forall|a: int, b: int| 0 <= a < b < n ==> (#[trigger] out[a]).1 >= (#[trigger] out[b]).1
    &&& forall|a: int, b: int|
        0 <= a < b < n && (#[trigger] out[a]).1 == (#[trigger] out[b]).1 ==> origin[a] < origin[b]
}

/// `out` holds the entries of `src`, each once, strongest first, entries of
/// equal strength in their order in `src`.
pub open spec fn ordered_by_strength(src: Seq<(Seq<char>, u32)>, out: Seq<(Seq<char>, u32)>) -> bool {
    exists|origin: Seq<int>| arranged_prefix(src, out, origin, src.len() as int)
}

/// Putting the next entry of `src` in front of the first weaker one keeps the arrangement.
proof fn lemma_place_next(
    src: Seq<(Seq<char>, u32)>,
    out: Seq<(Seq<char>, u32)>,
    origin: Seq<int>,
    i: int,
    p: int,
)
    requires
        arranged_prefix(src, out, origin, i),
        0 <= i < src.len(),
        0 <= p <= out.len(),
        forall|k: int| 0 <= k < p ==> (#[trigger] out[k]).1 >= src[i].1,
        forall|k: int| p <= k < out.len() ==> (#[trigger] out[k]).1 < src[i].1,
    ensures
        arranged_prefix(src, out.insert(p, src[i]), origin.insert(p, i), i + 1),
{
    let o2 = out.insert(p, src[i]);
    let g2 = origin.insert(p, i);
    assert forall|k: int| 0 <= k < i + 1 implies 0 <= #[trigger] g2[k] < i + 1 && o2[k] == src[g2[k]] by {
        if k < p {
            assert(g2[k] == origin[k]);
        } else if k > p {
            assert(g2[k] == origin[k - 1]);
        }
    }
    assert forall|a: int, b: int| 0 <= a < b < i + 1 implies #[trigger] g2[a] != #[trigger] g2[b] by {
        if a < p && b < p {
        } else if a < p && b == p {
            assert(origin[a] < i);
        } else if a < p {
            assert(g2[b] == origin[b - 1]);
        } else if a == p {
            assert(g2[b] == origin[b - 1]);
            assert(origin[b - 1] < i);
        } else {
            assert(g2[a] == origin[a - 1]);
            assert(g2[b] == origin[b - 1]);
        }
    }
    assert forall|a: int, b: int| 0 <= a < b < i + 1 implies (#[trigger] o2[a]).1 >= (#[trigger] o2[b]).1 by {
        if a < p && b < p {
        } else if a < p && b == p {
        } else if a < p {
            assert(o2[b] == out[b - 1]);
            assert(out[a].1 >= out[b - 1].1);
        } else if a == p {
            assert(o2[b] == out[b - 1]);
        } else {
            assert(o2[a] == out[a - 1]);
            assert(o2[b] == out[b - 1]);
        }
    }
    assert forall|a: int, b: int|
        0 <= a < b < i + 1 && (#[trigger] o2[a]).1 == (#[trigger] o2[b]).1 implies g2[a] < g2[b] by {
        if a < p && b < p {
        } else if a < p && b == p {
            assert(origin[a] < i);
        } else if a < p {
            assert(o2[b] == out[b - 1]);
            assert(g2[b] == origin[b - 1]);
        } else if a == p {
            assert(o2[b] == out[b - 1]);
        } else {
            assert(o2[a] == out[a - 1]);
            assert(o2[b] == out[b - 1]);
            assert(g2[a] == origin[a - 1]);
            assert(g2[b] == origin[b - 1]);
        }
    }
}

/// The jobs of the sums with their strengths, strongest first; jobs of equal
/// strength keep the order of the sums' entries.
pub fn job_affinities_by_strength(job_affinity_sums: &NamedMap<u32>) -> (r: Vec<(String, u32)>)
    ensures
        ordered_by_strength(pair_views(job_affinity_sums.entry_list()), pair_views(r@)),
{
    let entries = job_affinity_sums.entries();
    let ghost src = pair_views(entries@);
    let mut out: Vec<(String, u32)> = Vec::new();
    let ghost mut origin: Seq<int> = Seq::empty();
    let n = entries.len();
    for i in 0..n
        invariant
            n == entries@.len(),
            src == pair_views(entries@),
            arranged_prefix(src, pair_views(out@), origin, i as int),
    {
        let strength = entries[i].1;
        let mut p: usize = 0;
        while p < out.len() && out[p].1 >= strength
            invariant
                p <= out@.len(),
                forall|k: int| 0 <= k < p ==> (#[trigger] out@[k]).1 >= strength,
            decreases out@.len() - p,
        {
            p = p + 1;
        }
        proof {
            let ov = pair_views(out@);
            assert(src[i as int] == (entries@[i as int].0@, strength));
            assert forall|k: int| 0 <= k < p implies (#[trigger] ov[k]).1 >= src[i as int].1 by {
                assert(ov[k].1 == out@[k].1);
            }
            assert forall|k: int| p <= k < ov.len() implies (#[trigger] ov[k]).1 < src[i as int].1 by {
                assert(ov[p as int].1 == out@[p as int].1);
                if k > p {
                    assert(ov[p as int].1 >= ov[k].1);
                }
            }
            lemma_place_next(src, ov, origin, i as int, p as int);
        }
        let ghost before = out@;
        out.insert(p, (entries[i].0.clone(), strength));
        proof {
            assert(pair_views(out@) =~= pair_views(before).insert(p as int, src[i as int]));
            origin = origin.insert(p as int, i as int);
        }
    }
    proof {
        assert(arranged_prefix(src, pair_views(out@), origin, src.len() as int));
    }
    out
}

} // verus!
