use workout_planner::exercise::{Category, Contraindication, Exercise, MovementPattern};

fn make_exercise(contraindications: Vec<Contraindication>, difficulty: u8) -> Exercise {
    Exercise {
        id: "test".to_string(),
        name_fr: "Test".to_string(),
        name_en: "Test".to_string(),
        category: Category::Push,
        movement_pattern: MovementPattern::HorizontalPush,
        difficulty,
        duration_s: 30,
        equipment_required: false,
        postpartum_only: false,
        contraindications,
        instructions_fr: String::new(),
        instructions_en: String::new(),
    }
}

#[test]
fn suitable_when_no_contraindications() {
    let ex = make_exercise(vec![], 1);
    assert!(ex.is_suitable_for_contraindications(&[]));
}

#[test]
fn not_suitable_when_contraindication_matches() {
    let ex = make_exercise(vec![Contraindication::DiastasisRecti], 1);
    assert!(!ex.is_suitable_for_contraindications(&[Contraindication::DiastasisRecti]));
}

#[test]
fn suitable_when_user_has_different_contraindication() {
    let ex = make_exercise(vec![Contraindication::Knee], 1);
    assert!(ex.is_suitable_for_contraindications(&[Contraindication::Shoulder]));
}

#[test]
fn suitable_when_exercise_has_no_restrictions_and_user_has_one() {
    let ex = make_exercise(vec![], 1);
    assert!(ex.is_suitable_for_contraindications(&[Contraindication::Knee]));
}

#[test]
fn difficulty_too_high_is_unsuitable() {
    let ex = make_exercise(vec![], 3);
    assert!(!ex.is_suitable_for_difficulty(2));
}

#[test]
fn difficulty_equal_is_suitable() {
    let ex = make_exercise(vec![], 2);
    assert!(ex.is_suitable_for_difficulty(2));
}

#[test]
fn difficulty_lower_is_suitable() {
    let ex = make_exercise(vec![], 1);
    assert!(ex.is_suitable_for_difficulty(3));
}

#[test]
fn multiple_contraindications_any_match_blocks() {
    let ex = make_exercise(vec![Contraindication::Knee, Contraindication::Wrist], 1);
    assert!(!ex.is_suitable_for_contraindications(&[Contraindication::Wrist]));
}

#[test]
fn match_late_in_user_list_blocks() {
    let ex = make_exercise(vec![Contraindication::Hip], 1);
    assert!(!ex.is_suitable_for_contraindications(&[
        Contraindication::Knee,
        Contraindication::Back,
        Contraindication::Hip
    ]));
}

#[test]
fn timed_patterns_are_classified() {
    let mut ex = make_exercise(vec![], 1);
    assert!(!ex.is_timed());
    ex.movement_pattern = MovementPattern::PelvicFloor;
    assert!(ex.is_timed());
    ex.movement_pattern = MovementPattern::Mobility;
    assert!(ex.is_timed());
    ex.movement_pattern = MovementPattern::CoreAntiExtension;
    assert!(ex.is_timed());
    ex.movement_pattern = MovementPattern::HipHinge;
    assert!(!ex.is_timed());
}
