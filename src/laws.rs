//! What every planned session satisfies, proved over the planning model.
use vstd::prelude::*;

use crate::exercise::{Category, Contraindication, Exercise};
use crate::profile::{all_contraindications_of, max_difficulty_of, AgeBracket, FitnessLevel, Profile};
use crate::program::{
    budget_of, candidate_of, charge_of, eligible_of, in_category, is_eligible, pick_of,
    priority_of, session_of, walk, TRANSITION_S,
};
use crate::session::{duration_of, lemma_duration_nonneg, total_duration_of, SessionExercise};

verus! {

broadcast use vstd::seq_lib::group_filter_ensures;

proof fn lemma_total_cons(x: SessionExercise, s: Seq<SessionExercise>)
    ensures
        total_duration_of(seq![x] + s) == duration_of(x) + total_duration_of(s),
    decreases s.len(),
{
    if s.len() > 0 {
        assert((seq![x] + s).drop_last() =~= seq![x] + s.drop_last());
        lemma_total_cons(x, s.drop_last());
    } else {
        assert((seq![x] + s).drop_last() =~= s);
    }
}

proof fn lemma_walk_budget(p: Profile, e: Seq<Exercise>, order: Seq<Category>, seed: nat, used: int)
    requires
        0 <= used <= budget_of(p),
    ensures
        used + total_duration_of(walk(p, e, order, seed, used))
            + TRANSITION_S * walk(p, e, order, seed, used).len() <= budget_of(p),
    decreases order.len(),
{
    if order.len() == 0 || used >= budget_of(p) {
    } else {
        let rest = order.drop_first();
        match pick_of(e, order[0], seed) {
            None => lemma_walk_budget(p, e, rest, seed, used),
            Some(x) => {
                lemma_duration_nonneg(candidate_of(p, x));
                if used + charge_of(p, x) <= budget_of(p) {
                    lemma_walk_budget(p, e, rest, seed, used + charge_of(p, x));
                    lemma_total_cons(candidate_of(p, x), walk(p, e, rest, seed, used + charge_of(p, x)));
                } else {
                    lemma_walk_budget(p, e, rest, seed, used);
                }
            },
        }
    }
}

proof fn lemma_pick_member(e: Seq<Exercise>, c: Category, seed: nat)
    ensures
        pick_of(e, c, seed) matches Some(x) ==> e.contains(x) && x.category == c,
{
    let m = in_category(e, c);
    if m.len() > 0 {
        let idx = (seed % m.len()) as int;
        let pred = |x: Exercise| x.category == c;
        assert(m.contains(m[idx]));
        e.lemma_filter_contains_rev(pred, m[idx]);
        e.lemma_filter_pred(pred, idx);
    }
}

proof fn lemma_walk_members(p: Profile, e: Seq<Exercise>, order: Seq<Category>, seed: nat, used: int)
    ensures
        forall|k: int| 0 <= k < walk(p, e, order, seed, used).len() ==>
            exists|x: Exercise| e.contains(x) && #[trigger] walk(p, e, order, seed, used)[k] == candidate_of(p, x),
    decreases order.len(),
{
    if order.len() == 0 || used >= budget_of(p) {
    } else {
        let rest = order.drop_first();
        lemma_pick_member(e, order[0], seed);
        match pick_of(e, order[0], seed) {
            None => {
                lemma_walk_members(p, e, rest, seed, used);
                assert(walk(p, e, order, seed, used) == walk(p, e, rest, seed, used));
            },
            Some(x) => {
                if used + charge_of(p, x) <= budget_of(p) {
                    let tail = walk(p, e, rest, seed, used + charge_of(p, x));
                    lemma_walk_members(p, e, rest, seed, used + charge_of(p, x));
                    let w = walk(p, e, order, seed, used);
                    assert forall|k: int| 0 <= k < w.len() implies
                        exists|y: Exercise| e.contains(y) && #[trigger] w[k] == candidate_of(p, y) by {
                        if k == 0 {
                            assert(w[0] == candidate_of(p, x));
                        } else {
                            assert(w[k] == tail[k - 1]);
                        }
                    }
                } else {
                    lemma_walk_members(p, e, rest, seed, used);
                    assert(walk(p, e, order, seed, used) == walk(p, e, rest, seed, used));
                }
            },
        }
    }
}

proof fn lemma_eligible_member(p: Profile, catalogue: Seq<Exercise>, x: Exercise)
    requires
        eligible_of(p, catalogue).contains(x),
    ensures
        catalogue.contains(x),
        is_eligible(p, x),
{
    let pred = |y: Exercise| is_eligible(p, y);
    catalogue.lemma_filter_contains_rev(pred, x);
    let i = choose|i: int| 0 <= i < eligible_of(p, catalogue).len() && eligible_of(p, catalogue)[i] == x;
    catalogue.lemma_filter_pred(pred, i);
}

/// A session's estimated time, with one transition charged per exercise,
/// never exceeds the profile's minutes per session.
pub proof fn lemma_session_within_budget(p: Profile, catalogue: Seq<Exercise>, seed: nat)
    ensures
        total_duration_of(session_of(p, catalogue, seed))
            + TRANSITION_S * session_of(p, catalogue, seed).len() <= p.minutes_per_session * 60,
{
    lemma_walk_budget(p, eligible_of(p, catalogue), priority_of(p), seed, 0);
}

/// Every planned exercise is an eligible exercise of the catalogue, planned
/// the way the profile calls for.
pub proof fn lemma_session_drawn_from_eligible(p: Profile, catalogue: Seq<Exercise>, seed: nat)
    ensures
        forall|k: int| 0 <= k < session_of(p, catalogue, seed).len() ==>
            exists|x: Exercise| catalogue.contains(x) && is_eligible(p, x)
                && #[trigger] session_of(p, catalogue, seed)[k] == candidate_of(p, x),
{
    let e = eligible_of(p, catalogue);
    let s = session_of(p, catalogue, seed);
    lemma_walk_members(p, e, priority_of(p), seed, 0);
    assert forall|k: int| 0 <= k < s.len() implies
        exists|x: Exercise| catalogue.contains(x) && is_eligible(p, x) && #[trigger] s[k] == candidate_of(p, x) by {
        let x = choose|x: Exercise| e.contains(x) && s[k] == candidate_of(p, x);
        lemma_eligible_member(p, catalogue, x);
    }
}

/// None of `x`'s contraindications is among `p`'s injuries, nor, for a
/// postpartum profile, Postpartum or DiastasisRecti.
pub open spec fn clear_for(p: Profile, x: Exercise) -> bool {
    forall|j: int| 0 <= j < x.contraindications@.len() ==> {
        &&& !p.injury_notes@.contains(#[trigger] x.contraindications@[j])
        &&& (p.is_postpartum ==> x.contraindications@[j] != Contraindication::Postpartum)
        &&& (p.is_postpartum ==> x.contraindications@[j] != Contraindication::DiastasisRecti)
    }
}

/// `planned` stands for an exercise of `catalogue` that needs no equipment,
/// is postpartum-only for postpartum profiles only, and is clear of `p`'s
/// contraindications.
pub open spec fn from_safe_exercise(p: Profile, catalogue: Seq<Exercise>, planned: SessionExercise) -> bool {
    exists|x: Exercise|
        #![trigger catalogue.contains(x)]
        catalogue.contains(x) && planned.exercise_id == x.id && !x.equipment_required
            && (x.postpartum_only ==> p.is_postpartum) && clear_for(p, x)
}

/// Every planned exercise comes from an exercise of the catalogue that needs
/// no equipment and is clear of the user's contraindications (injuries, and
/// Postpartum and DiastasisRecti for a postpartum user); postpartum-only
/// exercises are planned for postpartum users only.
pub proof fn lemma_session_respects_contraindications(p: Profile, catalogue: Seq<Exercise>, seed: nat)
    ensures
        forall|k: int| 0 <= k < session_of(p, catalogue, seed).len()
            ==> from_safe_exercise(p, catalogue, #[trigger] session_of(p, catalogue, seed)[k]),
{
    let s = session_of(p, catalogue, seed);
    lemma_session_drawn_from_eligible(p, catalogue, seed);
    assert forall|k: int| 0 <= k < s.len() implies from_safe_exercise(p, catalogue, #[trigger] s[k]) by {
        let x = choose|x: Exercise| catalogue.contains(x) && is_eligible(p, x) && s[k] == candidate_of(p, x);
        let all = all_contraindications_of(p);
        assert forall|j: int| 0 <= j < x.contraindications@.len() implies {
            &&& !p.injury_notes@.contains(#[trigger] x.contraindications@[j])
            &&& (p.is_postpartum ==> x.contraindications@[j] != Contraindication::Postpartum)
            &&& (p.is_postpartum ==> x.contraindications@[j] != Contraindication::DiastasisRecti)
        } by {
            let t = x.contraindications@[j];
            assert(!all.contains(t));
            if p.injury_notes@.contains(t) {
                let i = choose|i: int| 0 <= i < p.injury_notes@.len() && p.injury_notes@[i] == t;
                assert(all[i] == t);
            }
            if p.is_postpartum {
                assert(all[p.injury_notes@.len() as int] == Contraindication::Postpartum);
                assert(all[p.injury_notes@.len() as int + 1] == Contraindication::DiastasisRecti);
            }
        }
        assert(clear_for(p, x));
        assert(catalogue.contains(x));
    }
}

/// `planned` stands for an exercise of `catalogue` no harder than `p` allows.
pub open spec fn from_allowed_difficulty(p: Profile, catalogue: Seq<Exercise>, planned: SessionExercise) -> bool {
    exists|x: Exercise|
        #![trigger catalogue.contains(x)]
        catalogue.contains(x) && planned.exercise_id == x.id && x.difficulty <= max_difficulty_of(p)
}

/// No exercise harder than the profile's maximum difficulty is planned.
pub proof fn lemma_session_respects_difficulty(p: Profile, catalogue: Seq<Exercise>, seed: nat)
    ensures
        forall|k: int| 0 <= k < session_of(p, catalogue, seed).len()
            ==> from_allowed_difficulty(p, catalogue, #[trigger] session_of(p, catalogue, seed)[k]),
{
    let s = session_of(p, catalogue, seed);
    lemma_session_drawn_from_eligible(p, catalogue, seed);
    assert forall|k: int| 0 <= k < s.len() implies from_allowed_difficulty(p, catalogue, #[trigger] s[k]) by {
        let x = choose|x: Exercise| catalogue.contains(x) && is_eligible(p, x) && s[k] == candidate_of(p, x);
        assert(catalogue.contains(x));
    }
}

/// Every planned exercise has 2 sets for a beginner and 3 for an intermediate.
pub proof fn lemma_session_sets(p: Profile, catalogue: Seq<Exercise>, seed: nat)
    ensures
        forall|k: int| 0 <= k < session_of(p, catalogue, seed).len()
            ==> (#[trigger] session_of(p, catalogue, seed)[k]).sets == match p.fitness_level {
                FitnessLevel::Beginner => 2u8,
                FitnessLevel::Intermediate => 3u8,
            },
{
    let s = session_of(p, catalogue, seed);
    lemma_session_drawn_from_eligible(p, catalogue, seed);
    assert forall|k: int| 0 <= k < s.len() implies (#[trigger] s[k]).sets == match p.fitness_level {
        FitnessLevel::Beginner => 2u8,
        FitnessLevel::Intermediate => 3u8,
    } by {
        let x = choose|x: Exercise| catalogue.contains(x) && is_eligible(p, x) && s[k] == candidate_of(p, x);
    }
}

/// The rest between sets of every planned exercise: 60 s for a beginner,
/// 45 s for an intermediate, plus 15 s from 45 on.
pub proof fn lemma_session_rest(p: Profile, catalogue: Seq<Exercise>, seed: nat)
    ensures
        forall|k: int| 0 <= k < session_of(p, catalogue, seed).len()
            ==> (#[trigger] session_of(p, catalogue, seed)[k]).rest_s
                == (match p.fitness_level {
                    FitnessLevel::Beginner => 60int,
                    FitnessLevel::Intermediate => 45int,
                }) + (if p.age_bracket == AgeBracket::Age45Plus { 15int } else { 0int }),
{
    let s = session_of(p, catalogue, seed);
    lemma_session_drawn_from_eligible(p, catalogue, seed);
    assert forall|k: int| 0 <= k < s.len() implies (#[trigger] s[k]).rest_s
        == (match p.fitness_level {
            FitnessLevel::Beginner => 60int,
            FitnessLevel::Intermediate => 45int,
        }) + (if p.age_bracket == AgeBracket::Age45Plus { 15int } else { 0int }) by {
        let x = choose|x: Exercise| catalogue.contains(x) && is_eligible(p, x) && s[k] == candidate_of(p, x);
    }
}

/// For two profiles that differ only in age bracket, one 45+ and one
/// younger, every exercise planned for the older one rests exactly 15 s
/// longer than any planned for the younger one.
pub proof fn lemma_session_rest_age_bonus(
    older: Profile,
    younger: Profile,
    catalogue: Seq<Exercise>,
    seed_older: nat,
    seed_younger: nat,
)
    requires
        older.age_bracket == AgeBracket::Age45Plus,
        younger.age_bracket != AgeBracket::Age45Plus,
        older.sex == younger.sex,
        older.fitness_level == younger.fitness_level,
        older.workout_days == younger.workout_days,
        older.minutes_per_session == younger.minutes_per_session,
        older.is_postpartum == younger.is_postpartum,
        older.injury_notes == younger.injury_notes,
        older.lang == younger.lang,
        older.disclaimer_accepted_at == younger.disclaimer_accepted_at,
    ensures
        forall|i: int, j: int|
            0 <= i < session_of(older, catalogue, seed_older).len()
                && 0 <= j < session_of(younger, catalogue, seed_younger).len()
            ==> (#[trigger] session_of(older, catalogue, seed_older)[i]).rest_s
                == (#[trigger] session_of(younger, catalogue, seed_younger)[j]).rest_s + 15,
{
    lemma_session_rest(older, catalogue, seed_older);
    lemma_session_rest(younger, catalogue, seed_younger);
}

proof fn lemma_walk_nothing_fits(p: Profile, e: Seq<Exercise>, order: Seq<Category>, seed: nat, used: int)
    requires
        0 <= used,
        forall|x: Exercise| e.contains(x) ==> charge_of(p, x) > budget_of(p),
    ensures
        walk(p, e, order, seed, used).len() == 0,
    decreases order.len(),
{
    if order.len() > 0 && used < budget_of(p) {
        lemma_pick_member(e, order[0], seed);
        lemma_walk_nothing_fits(p, e, order.drop_first(), seed, used);
    }
}

/// When no eligible exercise of the catalogue fits the budget with its
/// transition, the session is empty.
pub proof fn lemma_session_empty_when_nothing_fits(p: Profile, catalogue: Seq<Exercise>, seed: nat)
    requires
        forall|x: Exercise| catalogue.contains(x) && is_eligible(p, x) ==> charge_of(p, x) > budget_of(p),
    ensures
        session_of(p, catalogue, seed).len() == 0,
{
    let e = eligible_of(p, catalogue);
    assert forall|x: Exercise| e.contains(x) implies charge_of(p, x) > budget_of(p) by {
        lemma_eligible_member(p, catalogue, x);
    }
    lemma_walk_nothing_fits(p, e, priority_of(p), seed, 0);
}

/// An empty catalogue gives an empty session.
pub proof fn lemma_session_empty_catalogue(p: Profile, seed: nat)
    ensures
        session_of(p, Seq::<Exercise>::empty(), seed).len() == 0,
{
    lemma_session_empty_when_nothing_fits(p, Seq::<Exercise>::empty(), seed);
}

proof fn lemma_walk_seed_free(p: Profile, e: Seq<Exercise>, order: Seq<Category>, s1: nat, s2: nat, used: int)
    requires
        forall|c: Category| #[trigger] in_category(e, c).len() <= 1,
    ensures
        walk(p, e, order, s1, used) == walk(p, e, order, s2, used),
    decreases order.len(),
{
    if order.len() > 0 && used < budget_of(p) {
        let rest = order.drop_first();
        assert(in_category(e, order[0]).len() <= 1);
        assert(pick_of(e, order[0], s1) == pick_of(e, order[0], s2));
        match pick_of(e, order[0], s1) {
            None => lemma_walk_seed_free(p, e, rest, s1, s2, used),
            Some(x) => {
                lemma_walk_seed_free(p, e, rest, s1, s2, used);
                lemma_walk_seed_free(p, e, rest, s1, s2, used + charge_of(p, x));
            },
        }
    }
}

/// The seed can change the session only through a category with more than
/// one eligible exercise: when each has at most one, every seed gives the
/// same session.
pub proof fn lemma_seed_matters_only_with_choice(p: Profile, catalogue: Seq<Exercise>, seed1: nat, seed2: nat)
    requires
        forall|c: Category| #[trigger] in_category(eligible_of(p, catalogue), c).len() <= 1,
    ensures
        session_of(p, catalogue, seed1) == session_of(p, catalogue, seed2),
{
    lemma_walk_seed_free(p, eligible_of(p, catalogue), priority_of(p), seed1, seed2, 0);
}

} // verus!
