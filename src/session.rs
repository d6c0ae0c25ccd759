use vstd::prelude::*;

verus! {

/// Seconds of work assumed per repetition when estimating a duration.
pub const SECONDS_PER_REP: u32 = 3;

/// Repetitions assumed when an entry gives neither a duration nor a rep count.
pub const DEFAULT_REPS: u8 = 10;

/// One planned exercise: sets of either timed work or repetitions, with rest between sets.
#[derive(Debug, Clone)]
pub struct SessionExercise {
    pub exercise_id: String,
    pub sets: u8,
    /// Repetitions per set (dynamic exercises)
    pub reps: Option<u8>,
    /// Duration of one set in seconds (held or mobility exercises)
    pub duration_s: Option<u32>,
    /// Rest between sets in seconds
    pub rest_s: u32,
}

/// Seconds of work in one set.
pub open spec fn work_per_set_of(e: SessionExercise) -> int {
    match e.duration_s {
        Some(d) => d as int,
        None => match e.reps {
            Some(r) => r * SECONDS_PER_REP,
            None => DEFAULT_REPS * SECONDS_PER_REP,
        },
    }
}

/// Estimated seconds for the whole exercise: every set's work, and rest
/// between consecutive sets only.
pub open spec fn duration_of(e: SessionExercise) -> int {
    work_per_set_of(e) * e.sets + e.rest_s * (if e.sets >= 1 { e.sets - 1 } else { 0 })
}

/// Sum of the estimates of a sequence of planned exercises.
pub open spec fn total_duration_of(s: Seq<SessionExercise>) -> int
    decreases s.len(),
{
    if s.len() == 0 {
        0
    } else {
        total_duration_of(s.drop_last()) + duration_of(s.last())
    }
}

pub proof fn lemma_duration_nonneg(e: SessionExercise)
    ensures
        0 <= duration_of(e) <= u32::MAX * 255 + u32::MAX * 254,
{
    let w = work_per_set_of(e);
    let g: int = if e.sets >= 1 { e.sets - 1 } else { 0 };
    assert(0 <= w <= u32::MAX);
    assert(0 <= w * e.sets <= u32::MAX * 255) by (nonlinear_arith)
        requires 0 <= w <= u32::MAX, 0 <= e.sets <= 255;
    assert(0 <= e.rest_s * g <= u32::MAX * 254) by (nonlinear_arith)
        requires 0 <= e.rest_s <= u32::MAX, 0 <= g <= 254;
}

/// A prefix never takes longer than the whole sequence.
pub proof fn lemma_total_prefix(s: Seq<SessionExercise>, i: int)
    requires
        0 <= i <= s.len(),
    ensures
        0 <= total_duration_of(s.take(i)) <= total_duration_of(s),
    decreases s.len(),
{
    if s.len() > 0 {
        lemma_duration_nonneg(s.last());
        if i == s.len() {
            assert(s.take(i) =~= s);
            lemma_total_prefix(s.drop_last(), i - 1);
            assert(s.drop_last().take(i - 1) =~= s.take(i - 1));
        } else {
            lemma_total_prefix(s.drop_last(), i);
            assert(s.drop_last().take(i) =~= s.take(i));
        }
    }
}

impl SessionExercise {
    /// Estimate without an upper bound on the result.
    pub(crate) fn estimated_duration_wide(&self) -> (r: u64)
        ensures
            r == duration_of(*self),
            r <= u32::MAX * 255 + u32::MAX * 254,
    {
        proof {
            lemma_duration_nonneg(*self);
        }
        let work_per_set: u64 = match self.duration_s {
            Some(d) => d as u64,
            None => match self.reps {
                Some(n) => n as u64 * SECONDS_PER_REP as u64,
                None => DEFAULT_REPS as u64 * SECONDS_PER_REP as u64,
            },
        };
        let gaps: u64 = if self.sets >= 1 { self.sets as u64 - 1 } else { 0 };
        assert(work_per_set * self.sets as u64 <= u32::MAX * 255) by (nonlinear_arith)
            requires work_per_set <= u32::MAX, self.sets <= 255;
        assert(self.rest_s as u64 * gaps <= u32::MAX * 254) by (nonlinear_arith)
            requires self.rest_s <= u32::MAX, gaps <= 254;
        work_per_set * self.sets as u64 + self.rest_s as u64 * gaps
    }

    /// Estimated seconds for all sets and the rests between them.
    pub fn estimated_duration_s(&self) -> (r: u32)
        requires
            duration_of(*self) <= u32::MAX,
        ensures
            r == duration_of(*self),
    {
        self.estimated_duration_wide() as u32
    }
}

/// An ordered list of planned exercises.
#[derive(Debug, Clone)]
pub struct SessionPlan {
    pub exercises: Vec<SessionExercise>,
}

impl SessionPlan {
    /// Sum of the estimates of all planned exercises (no transitions).
    pub fn total_duration_s(&self) -> (r: u32)
        requires
            total_duration_of(self.exercises@) <= u32::MAX,
        ensures
            r == total_duration_of(self.exercises@),
    {
        let mut total: u32 = 0;
        let mut i: usize = 0;
        while i < self.exercises.len()
            invariant
                0 <= i <= self.exercises@.len(),
                total == total_duration_of(self.exercises@.take(i as int)),
                total_duration_of(self.exercises@) <= u32::MAX,
            decreases self.exercises@.len() - i,
        {
            proof {
                assert(self.exercises@.take(i + 1).drop_last() =~= self.exercises@.take(i as int));
                lemma_total_prefix(self.exercises@, i + 1);
            }
            let d = self.exercises[i].estimated_duration_s();
            total = total + d;
            i += 1;
        }
        assert(self.exercises@.take(i as int) =~= self.exercises@);
        total
    }

    /// Number of planned exercises.
    pub fn exercise_count(&self) -> (r: usize)
        ensures
            r == self.exercises@.len(),
    {
        self.exercises.len()
    }

    /// Whether nothing is planned.
    pub fn is_empty(&self) -> (r: bool)
        ensures
            r == (self.exercises@.len() == 0),
    {
        self.exercises.len() == 0
    }
}

/// A plan as the user carried it out.
#[derive(Debug, Clone)]
pub struct CompletedSession {
    pub date: String,
    pub plan: SessionPlan,
    pub completed_exercise_ids: Vec<String>,
    /// Overall perceived effort (1 to 10), if given
    pub rpe: Option<u8>,
    pub duration_actual_s: Option<u32>,
}

impl CompletedSession {
    /// At least as many completions as planned exercises.
    pub fn is_complete(&self) -> (r: bool)
        ensures
            r == (self.completed_exercise_ids@.len() >= self.plan.exercises@.len()),
    {
        self.completed_exercise_ids.len() >= self.plan.exercise_count()
    }
}

} // verus!
