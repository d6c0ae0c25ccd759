use vstd::prelude::*;

verus! {

/// Training category of an exercise.
#[derive(Debug, Clone, Copy, PartialEq, Eq, Structural)]
pub enum Category {
    Push,
    Pull,
    Squat,
    Hinge,
    Core,
    Mobility,
}

/// Movement pattern of an exercise.
#[derive(Debug, Clone, Copy, PartialEq, Eq, Structural)]
pub enum MovementPattern {
    HorizontalPush,
    VerticalPush,
    HorizontalPull,
    VerticalPull,
    Squat,
    Lunge,
    HipHinge,
    CoreAntiExtension,
    CoreAntiRotation,
    CoreFlexion,
    Mobility,
    PelvicFloor,
}

/// A condition under which an exercise is unsafe.
#[derive(Debug, Clone, Copy, PartialEq, Eq, Structural)]
pub enum Contraindication {
    Postpartum,
    Back,
    LowerBack,
    Knee,
    Hip,
    Shoulder,
    Wrist,
    DiastasisRecti,
}

/// Static description of one movement of the catalogue.
#[derive(Debug, Clone)]
pub struct Exercise {
    pub id: String,
    pub name_fr: String,
    pub name_en: String,
    pub category: Category,
    pub movement_pattern: MovementPattern,
    /// 1 = beginner, 2 = intermediate, 3 = advanced
    pub difficulty: u8,
    /// Duration of one set, in seconds
    pub duration_s: u32,
    pub equipment_required: bool,
    /// When set, the exercise is only offered to postpartum profiles
    pub postpartum_only: bool,
    pub contraindications: Vec<Contraindication>,
    pub instructions_fr: String,
    pub instructions_en: String,
}

/// No tag of `tags` occurs in `user`.
pub open spec fn no_shared_tag(tags: Seq<Contraindication>, user: Seq<Contraindication>) -> bool {
    forall|i: int| 0 <= i < tags.len() ==> !user.contains(#[trigger] tags[i])
}

/// Movements that are held or flowed through, planned by time rather than by repetitions.
pub open spec fn is_timed_pattern(m: MovementPattern) -> bool {
    match m {
        MovementPattern::CoreAntiExtension
        | MovementPattern::CoreAntiRotation
        | MovementPattern::CoreFlexion
        | MovementPattern::PelvicFloor
        | MovementPattern::Mobility => true,
        _ => false,
    }
}

/// Whether `c` occurs in `user`.
fn tag_in(c: Contraindication, user: &[Contraindication]) -> (r: bool)
    ensures
        r == user@.contains(c),
{
    let mut j: usize = 0;
    while j < user.len()
        invariant
            0 <= j <= user@.len(),
            forall|k: int| 0 <= k < j ==> user@[k] != c,
        decreases user@.len() - j,
    {
        if user[j] == c {
            return true;
        }
        j += 1;
    }
    false
}

impl Exercise {
    /// True when none of the exercise's contraindications is among the user's.
    pub fn is_suitable_for_contraindications(&self, user_contraindications: &[Contraindication]) -> (r: bool)
        ensures
            r == no_shared_tag(self.contraindications@, user_contraindications@),
    {
        let mut i: usize = 0;
        while i < self.contraindications.len()
            invariant
                0 <= i <= self.contraindications@.len(),
                forall|k: int| 0 <= k < i ==> !user_contraindications@.contains(#[trigger] self.contraindications@[k]),
            decreases self.contraindications@.len() - i,
        {
            if tag_in(self.contraindications[i], user_contraindications) {
                return false;
            }
            i += 1;
        }
        true
    }

    /// True when the exercise is no harder than `max_difficulty`.
    pub fn is_suitable_for_difficulty(&self, max_difficulty: u8) -> (r: bool)
        ensures
            r == (self.difficulty <= max_difficulty),
    {
        self.difficulty <= max_difficulty
    }

    /// Whether the exercise is planned by time (held or flowed) rather than by repetitions.
    pub fn is_timed(&self) -> (r: bool)
        ensures
            r == is_timed_pattern(self.movement_pattern),
    {
        match self.movement_pattern {
            MovementPattern::CoreAntiExtension
            | MovementPattern::CoreAntiRotation
            | MovementPattern::CoreFlexion
            | MovementPattern::PelvicFloor
            | MovementPattern::Mobility => true,
            _ => false,
        }
    }
}

} // verus!
