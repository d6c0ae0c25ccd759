use vstd::prelude::*;

use crate::exercise::{no_shared_tag, is_timed_pattern, Category, Exercise};
use crate::profile::{
    all_contraindications_of, max_difficulty_of, rest_bonus_of, FitnessLevel, Profile,
};
use crate::laws::lemma_session_within_budget;
use crate::session::{duration_of, total_duration_of, SessionExercise, SessionPlan};

verus! {

/// Transition time charged between two exercises, in seconds.
pub const TRANSITION_S: u32 = 15;

/// Base rest between sets for beginners, in seconds.
pub const BEGINNER_REST_S: u32 = 60;

/// Base rest between sets for intermediates, in seconds.
pub const INTERMEDIATE_REST_S: u32 = 45;

/// Session length in seconds.
pub open spec fn budget_of(p: Profile) -> int {
    p.minutes_per_session * 60
}

/// An exercise usable for `p`: bodyweight only, postpartum-only ones for
/// postpartum profiles only, no contraindication of the profile, and not too hard.
pub open spec fn is_eligible(p: Profile, e: Exercise) -> bool {
    &&& !e.equipment_required
    &&& (e.postpartum_only ==> p.is_postpartum)
    &&& no_shared_tag(e.contraindications@, all_contraindications_of(p))
    &&& e.difficulty <= max_difficulty_of(p)
}

/// The eligible exercises of a catalogue, in catalogue order.
pub open spec fn eligible_of(p: Profile, catalogue: Seq<Exercise>) -> Seq<Exercise> {
    catalogue.filter(|e: Exercise| is_eligible(p, e))
}

/// The exercises of category `c`, in order.
pub open spec fn in_category(exercises: Seq<Exercise>, c: Category) -> Seq<Exercise> {
    exercises.filter(|e: Exercise| e.category == c)
}

/// The exercise of category `c` at position `seed` modulo their number, if any.
pub open spec fn pick_of(exercises: Seq<Exercise>, c: Category, seed: nat) -> Option<Exercise> {
    let m = in_category(exercises, c);
    if m.len() == 0 {
        None
    } else {
        Some(m[(seed % m.len()) as int])
    }
}

/// Order in which categories are tried: core work first after childbirth.
pub open spec fn priority_of(p: Profile) -> Seq<Category> {
    if p.is_postpartum {
        seq![Category::Core, Category::Mobility, Category::Hinge, Category::Squat, Category::Push, Category::Pull]
    } else {
        seq![Category::Push, Category::Pull, Category::Squat, Category::Hinge, Category::Core, Category::Mobility]
    }
}

/// Sets per exercise: 2 for beginners, 3 for intermediates.
pub open spec fn sets_of(p: Profile) -> u8 {
    match p.fitness_level {
        FitnessLevel::Beginner => 2,
        FitnessLevel::Intermediate => 3,
    }
}

/// Base rest for the level plus the age bonus.
pub open spec fn rest_of(p: Profile) -> u32 {
    match p.fitness_level {
        FitnessLevel::Beginner => (BEGINNER_REST_S + rest_bonus_of(p)) as u32,
        FitnessLevel::Intermediate => (INTERMEDIATE_REST_S + rest_bonus_of(p)) as u32,
    }
}

/// Repetitions per set of a dynamic exercise: 8 for beginners, 12 for intermediates.
pub open spec fn reps_of(p: Profile) -> u8 {
    match p.fitness_level {
        FitnessLevel::Beginner => 8,
        FitnessLevel::Intermediate => 12,
    }
}

/// How `e` is planned for `p`.
pub open spec fn candidate_of(p: Profile, e: Exercise) -> SessionExercise {
    SessionExercise {
        exercise_id: e.id,
        sets: sets_of(p),
        reps: if is_timed_pattern(e.movement_pattern) { None } else { Some(reps_of(p)) },
        duration_s: if is_timed_pattern(e.movement_pattern) { Some(e.duration_s) } else { None },
        rest_s: rest_of(p),
    }
}

/// Time charged for planning `e`: its estimate and one transition.
pub open spec fn charge_of(p: Profile, e: Exercise) -> int {
    duration_of(candidate_of(p, e)) + TRANSITION_S
}

/// The walk over `order`, starting with `used` seconds spent: each category
/// gets its pick if the charge still fits, and the walk stops once the
/// budget is spent.
pub open spec fn walk(
    p: Profile,
    eligible: Seq<Exercise>,
    order: Seq<Category>,
    seed: nat,
    used: int,
) -> Seq<SessionExercise>
    decreases order.len(),
{
    if order.len() == 0 || used >= budget_of(p) {
        seq![]
    } else {
        let rest = order.drop_first();
        match pick_of(eligible, order[0], seed) {
            None => walk(p, eligible, rest, seed, used),
            Some(e) => if used + charge_of(p, e) <= budget_of(p) {
                seq![candidate_of(p, e)] + walk(p, eligible, rest, seed, used + charge_of(p, e))
            } else {
                walk(p, eligible, rest, seed, used)
            },
        }
    }
}

/// The session planned for `p` from `catalogue` with `seed`.
pub open spec fn session_of(p: Profile, catalogue: Seq<Exercise>, seed: nat) -> Seq<SessionExercise> {
    walk(p, eligible_of(p, catalogue), priority_of(p), seed, 0)
}

/// The exercises behind a sequence of references.
pub open spec fn deref_all(s: Seq<&Exercise>) -> Seq<Exercise> {
    s.map_values(|e: &Exercise| *e)
}

/// Builds sessions for one profile from one catalogue.
pub struct ProgramBuilder<'a> {
    profile: &'a Profile,
    exercises: &'a [Exercise],
}

impl<'a> ProgramBuilder<'a> {
    /// The profile sessions are built for.
    pub closed spec fn profile_spec(&self) -> Profile {
        *self.profile
    }

    /// The catalogue sessions are drawn from.
    pub closed spec fn exercises_spec(&self) -> Seq<Exercise> {
        self.exercises@
    }

    pub fn new(profile: &'a Profile, exercises: &'a [Exercise]) -> (r: Self)
        ensures
            r.profile_spec() == *profile,
            r.exercises_spec() == exercises@,
    {
        Self { profile, exercises }
    }

    /// Plans one session: the eligible exercises are filtered once, then each
    /// category in priority order contributes its seeded pick while the
    /// pick's estimate and one transition still fit in the time budget.
    pub fn build_session(&self, day_seed: u32) -> (r: SessionPlan)
        ensures
            r.exercises@ == session_of(self.profile_spec(), self.exercises_spec(), day_seed as nat),
            total_duration_of(r.exercises@) + TRANSITION_S * r.exercises@.len()
                <= self.profile_spec().minutes_per_session * 60,
    {
        let budget_s: u32 = self.profile.minutes_per_session as u32 * 60;
        let contraindications = self.profile.all_contraindications();
        let max_difficulty = self.profile.max_difficulty();
        let is_postpartum = self.profile.is_postpartum;
        let ghost p = *self.profile;
        let ghost cat = self.exercises@;

        let mut eligible: Vec<&Exercise> = Vec::new();
        let mut k: usize = 0;
        while k < self.exercises.len()
            invariant
                0 <= k <= cat.len(),
                cat == self.exercises@,
                p == *self.profile,
                contraindications@ == all_contraindications_of(p),
                max_difficulty == max_difficulty_of(p),
                is_postpartum == p.is_postpartum,
                deref_all(eligible@) == eligible_of(p, cat.take(k as int)),
            decreases cat.len() - k,
        {
            proof {
                assert(cat.take(k + 1).drop_last() =~= cat.take(k as int));
                reveal(Seq::filter);
            }
            let e = &self.exercises[k];
            if !e.equipment_required
                && (!e.postpartum_only || is_postpartum)
                && e.is_suitable_for_contraindications(&contraindications)
                && e.is_suitable_for_difficulty(max_difficulty)
            {
                eligible.push(e);
            }
            k += 1;
            assert(deref_all(eligible@) =~= eligible_of(p, cat.take(k as int)));
        }
        assert(cat.take(k as int) =~= cat);

        let (sets, rest_s) = self.sets_and_rest();
        let seed = day_seed as usize;
        let order: Vec<Category> = if is_postpartum {
            vec![Category::Core, Category::Mobility, Category::Hinge, Category::Squat, Category::Push, Category::Pull]
        } else {
            vec![Category::Push, Category::Pull, Category::Squat, Category::Hinge, Category::Core, Category::Mobility]
        };
        assert(order@ =~= priority_of(p));

        let mut selected: Vec<SessionExercise> = Vec::new();
        let mut used_time_s: u32 = 0;
        let mut i: usize = 0;
        assert(order@.skip(0) =~= order@);
        assert(selected@ + session_of(p, cat, day_seed as nat) =~= session_of(p, cat, day_seed as nat));
        while i < order.len() && used_time_s < budget_s
            invariant
                0 <= i <= order@.len(),
                p == *self.profile,
                cat == self.exercises@,
                order@ == priority_of(p),
                budget_s == budget_of(p),
                used_time_s <= budget_s,
                sets == sets_of(p),
                rest_s == rest_of(p),
                seed == day_seed,
                deref_all(eligible@) == eligible_of(p, cat),
                selected@ + walk(p, eligible_of(p, cat), order@.skip(i as int), seed as nat, used_time_s as int)
                    == session_of(p, cat, day_seed as nat),
            decreases order@.len() - i,
        {
            let ghost before = selected@;
            let ghost rest = order@.skip(i as int).drop_first();
            assert(rest =~= order@.skip(i + 1));
            if let Some(exercise) = self.pick_from_category(&eligible, &order[i], seed) {
                let is_timed = exercise.is_timed();
                let candidate = SessionExercise {
                    exercise_id: exercise.id.clone(),
                    sets,
                    reps: if is_timed { None } else { Some(self.reps_per_set()) },
                    duration_s: if is_timed { Some(exercise.duration_s) } else { None },
                    rest_s,
                };
                assert(candidate == candidate_of(p, *exercise));
                let needed: u64 = candidate.estimated_duration_wide() + TRANSITION_S as u64;
                if used_time_s as u64 + needed <= budget_s as u64 {
                    used_time_s = (used_time_s as u64 + needed) as u32;
                    selected.push(candidate);
                    assert(selected@ =~= before + seq![candidate_of(p, *exercise)]);
                    assert(before + (seq![candidate_of(p, *exercise)] + walk(p, eligible_of(p, cat), rest, seed as nat, used_time_s as int))
                        =~= selected@ + walk(p, eligible_of(p, cat), rest, seed as nat, used_time_s as int));
                }
            }
            i += 1;
        }
        proof {
            assert(order@.skip(i as int).len() == 0 || used_time_s >= budget_s);
            assert(selected@ =~= selected@ + seq![]);
            lemma_session_within_budget(p, cat, day_seed as nat);
        }
        SessionPlan { exercises: selected }
    }

    /// Sets per exercise, and rest between sets.
    fn sets_and_rest(&self) -> (r: (u8, u32))
        ensures
            r == (sets_of(*self.profile), rest_of(*self.profile)),
    {
        let (sets, base_rest) = match self.profile.fitness_level {
            FitnessLevel::Beginner => (2u8, BEGINNER_REST_S),
            FitnessLevel::Intermediate => (3u8, INTERMEDIATE_REST_S),
        };
        (sets, base_rest + self.profile.rest_bonus_s())
    }

    /// Repetitions per set for dynamic exercises.
    fn reps_per_set(&self) -> (r: u8)
        ensures
            r == reps_of(*self.profile),
    {
        match self.profile.fitness_level {
            FitnessLevel::Beginner => 8,
            FitnessLevel::Intermediate => 12,
        }
    }

    /// The exercise of `category` at position `seed` modulo their number, if any.
    fn pick_from_category<'b>(
        &self,
        eligible: &[&'b Exercise],
        category: &Category,
        seed: usize,
    ) -> (r: Option<&'b Exercise>)
        ensures
            r matches Some(e) ==> pick_of(deref_all(eligible@), *category, seed as nat) == Some(*e),
            r is None ==> pick_of(deref_all(eligible@), *category, seed as nat) is None,
    {
        let mut matching: Vec<&Exercise> = Vec::new();
        let mut i: usize = 0;
        while i < eligible.len()
            invariant
                0 <= i <= eligible@.len(),
                deref_all(matching@) == in_category(deref_all(eligible@).take(i as int), *category),
            decreases eligible@.len() - i,
        {
            proof {
                let all = deref_all(eligible@);
                assert(all.take(i + 1).drop_last() =~= all.take(i as int));
                reveal(Seq::filter);
            }
            if eligible[i].category == *category {
                matching.push(eligible[i]);
            }
            i += 1;
            assert(deref_all(matching@) =~= in_category(deref_all(eligible@).take(i as int), *category));
        }
        assert(deref_all(eligible@).take(i as int) =~= deref_all(eligible@));
        if matching.len() == 0 {
            return None;
        }
        Some(matching[seed % matching.len()])
    }
}

} // verus!
