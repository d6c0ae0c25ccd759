use vstd::prelude::*;

use crate::exercise::Contraindication;

verus! {

#[derive(Debug, Clone, Copy, PartialEq, Eq, Structural)]
pub enum Sex {
    Male,
    Female,
    Other,
}

#[derive(Debug, Clone, Copy, PartialEq, Eq, Structural)]
pub enum FitnessLevel {
    Beginner,
    Intermediate,
}

#[derive(Debug, Clone, Copy, PartialEq, Eq, Structural)]
pub enum Lang {
    Fr,
    En,
}

/// Age range, used instead of an exact age.
#[derive(Debug, Clone, Copy, PartialEq, Eq, Structural)]
pub enum AgeBracket {
    Under35,
    Age3544,
    Age45Plus,
}

/// A user's characteristics and constraints.
#[derive(Debug, Clone)]
pub struct Profile {
    pub sex: Sex,
    pub age_bracket: AgeBracket,
    pub fitness_level: FitnessLevel,
    /// Chosen training days (0 = Monday ... 6 = Sunday).
    pub workout_days: Vec<u8>,
    /// Expected between 15 and 60 minutes.
    pub minutes_per_session: u8,
    pub is_postpartum: bool,
    pub injury_notes: Vec<Contraindication>,
    pub lang: Lang,
    pub disclaimer_accepted_at: Option<String>,
}

/// Highest difficulty tier allowed: 2 for beginners, 3 otherwise, one less
/// (never below 1) from 45 on.
pub open spec fn max_difficulty_of(p: Profile) -> u8 {
    let base: u8 = match p.fitness_level {
        FitnessLevel::Beginner => 2,
        FitnessLevel::Intermediate => 3,
    };
    match p.age_bracket {
        AgeBracket::Age45Plus => if base > 1 { (base - 1) as u8 } else { 1 },
        _ => base,
    }
}

/// Extra rest between sets, in seconds: 15 from 45 on, else none.
pub open spec fn rest_bonus_of(p: Profile) -> u32 {
    match p.age_bracket {
        AgeBracket::Age45Plus => 15,
        _ => 0,
    }
}

/// Injuries, followed by Postpartum and DiastasisRecti for a postpartum profile.
pub open spec fn all_contraindications_of(p: Profile) -> Seq<Contraindication> {
    if p.is_postpartum {
        p.injury_notes@ + seq![Contraindication::Postpartum, Contraindication::DiastasisRecti]
    } else {
        p.injury_notes@
    }
}

impl Profile {
    /// Sessions per week: the number of chosen days (modulo 256).
    pub fn sessions_per_week(&self) -> (r: u8)
        ensures
            r == self.workout_days@.len() as u8,
            self.workout_days@.len() <= u8::MAX ==> r == self.workout_days@.len(),
    {
        self.workout_days.len() as u8
    }

    /// Highest difficulty tier allowed for this profile.
    pub fn max_difficulty(&self) -> (r: u8)
        ensures
            r == max_difficulty_of(*self),
            1 <= r <= 3,
    {
        let base: u8 = match self.fitness_level {
            FitnessLevel::Beginner => 2,
            FitnessLevel::Intermediate => 3,
        };
        match self.age_bracket {
            AgeBracket::Age45Plus => if base > 1 { base - 1 } else { 1 },
            _ => base,
        }
    }

    /// Extra rest between sets for the 45+ bracket.
    pub fn rest_bonus_s(&self) -> (r: u32)
        ensures
            r == rest_bonus_of(*self),
    {
        match self.age_bracket {
            AgeBracket::Age45Plus => 15,
            _ => 0,
        }
    }

    /// All active contraindications: injuries, plus postpartum ones when relevant.
    pub fn all_contraindications(&self) -> (r: Vec<Contraindication>)
        ensures
            r@ == all_contraindications_of(*self),
    {
        let mut contra: Vec<Contraindication> = Vec::new();
        let mut i: usize = 0;
        while i < self.injury_notes.len()
            invariant
                0 <= i <= self.injury_notes@.len(),
                contra@ == self.injury_notes@.take(i as int),
            decreases self.injury_notes@.len() - i,
        {
            contra.push(self.injury_notes[i]);
            i += 1;
            assert(contra@ =~= self.injury_notes@.take(i as int));
        }
        assert(contra@ =~= self.injury_notes@);
        if self.is_postpartum {
            contra.push(Contraindication::Postpartum);
            contra.push(Contraindication::DiastasisRecti);
            assert(contra@ =~= all_contraindications_of(*self));
        }
        contra
    }

    /// Target perceived-effort range: (5, 7) for beginners, (6, 8) otherwise.
    pub fn target_rpe_range(&self) -> (r: (u8, u8))
        ensures
            r == (match self.fitness_level {
                FitnessLevel::Beginner => (5u8, 7u8),
                FitnessLevel::Intermediate => (6u8, 8u8),
            }),
    {
        match self.fitness_level {
            FitnessLevel::Beginner => (5, 7),
            FitnessLevel::Intermediate => (6, 8),
        }
    }

    /// Whether the disclaimer has been accepted.
    pub fn disclaimer_accepted(&self) -> (r: bool)
        ensures
            r == self.disclaimer_accepted_at.is_some(),
    {
        self.disclaimer_accepted_at.is_some()
    }
}

} // verus!
