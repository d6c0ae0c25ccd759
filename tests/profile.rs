use workout_planner::exercise::Contraindication;
use workout_planner::profile::{AgeBracket, FitnessLevel, Lang, Profile, Sex};

fn make_profile(level: FitnessLevel, postpartum: bool) -> Profile {
    Profile {
        sex: Sex::Female,
        age_bracket: AgeBracket::Under35,
        fitness_level: level,
        workout_days: vec![0, 2, 4], // Lun, Mer, Ven
        minutes_per_session: 30,
        is_postpartum: postpartum,
        injury_notes: vec![],
        lang: Lang::Fr,
        disclaimer_accepted_at: None,
    }
}

#[test]
fn sessions_per_week_derived_from_workout_days() {
    let p = make_profile(FitnessLevel::Beginner, false);
    assert_eq!(p.sessions_per_week(), 3); // vec![0, 2, 4]
}

#[test]
fn sessions_per_week_empty_is_zero() {
    let mut p = make_profile(FitnessLevel::Beginner, false);
    p.workout_days = vec![];
    assert_eq!(p.sessions_per_week(), 0);
}

#[test]
fn beginner_max_difficulty_is_2() {
    let p = make_profile(FitnessLevel::Beginner, false);
    assert_eq!(p.max_difficulty(), 2);
}

#[test]
fn intermediate_max_difficulty_is_3() {
    let p = make_profile(FitnessLevel::Intermediate, false);
    assert_eq!(p.max_difficulty(), 3);
}

#[test]
fn age_45_plus_reduces_max_difficulty_by_1() {
    let mut p = make_profile(FitnessLevel::Intermediate, false);
    p.age_bracket = AgeBracket::Age45Plus;
    assert_eq!(p.max_difficulty(), 2);
}

#[test]
fn age_45_plus_beginner_difficulty_capped_at_1() {
    let mut p = make_profile(FitnessLevel::Beginner, false);
    p.age_bracket = AgeBracket::Age45Plus;
    // beginner base=2, -1=1, max(1)=1
    assert_eq!(p.max_difficulty(), 1);
}

#[test]
fn under_35_has_no_rest_bonus() {
    let p = make_profile(FitnessLevel::Beginner, false);
    assert_eq!(p.rest_bonus_s(), 0);
}

#[test]
fn age_45_plus_has_15s_rest_bonus() {
    let mut p = make_profile(FitnessLevel::Beginner, false);
    p.age_bracket = AgeBracket::Age45Plus;
    assert_eq!(p.rest_bonus_s(), 15);
}

#[test]
fn postpartum_adds_diastasis_and_postpartum_contraindications() {
    let p = make_profile(FitnessLevel::Beginner, true);
    let contra = p.all_contraindications();
    assert!(contra.contains(&Contraindication::Postpartum));
    assert!(contra.contains(&Contraindication::DiastasisRecti));
}

#[test]
fn non_postpartum_has_no_extra_contraindications() {
    let p = make_profile(FitnessLevel::Beginner, false);
    assert!(p.all_contraindications().is_empty());
}

#[test]
fn injury_notes_included_in_contraindications() {
    let mut p = make_profile(FitnessLevel::Beginner, false);
    p.injury_notes = vec![Contraindication::Knee];
    let contra = p.all_contraindications();
    assert!(contra.contains(&Contraindication::Knee));
}

#[test]
fn postpartum_merges_injury_notes_and_extra_contraindications() {
    let mut p = make_profile(FitnessLevel::Beginner, true);
    p.injury_notes = vec![Contraindication::Wrist];
    let contra = p.all_contraindications();
    assert!(contra.contains(&Contraindication::Wrist));
    assert!(contra.contains(&Contraindication::Postpartum));
    assert!(contra.contains(&Contraindication::DiastasisRecti));
}

#[test]
fn beginner_rpe_range_is_5_to_7() {
    let p = make_profile(FitnessLevel::Beginner, false);
    assert_eq!(p.target_rpe_range(), (5, 7));
}

#[test]
fn intermediate_rpe_range_is_6_to_8() {
    let p = make_profile(FitnessLevel::Intermediate, false);
    assert_eq!(p.target_rpe_range(), (6, 8));
}

#[test]
fn disclaimer_not_accepted_by_default() {
    let p = make_profile(FitnessLevel::Beginner, false);
    assert!(!p.disclaimer_accepted());
}

#[test]
fn disclaimer_accepted_when_date_is_set() {
    let mut p = make_profile(FitnessLevel::Beginner, false);
    p.disclaimer_accepted_at = Some("2026-01-01".to_string());
    assert!(p.disclaimer_accepted());
}

#[test]
fn bracket_35_44_keeps_difficulty_and_rest() {
    let mut p = make_profile(FitnessLevel::Intermediate, false);
    p.age_bracket = AgeBracket::Age3544;
    assert_eq!(p.max_difficulty(), 3);
    assert_eq!(p.rest_bonus_s(), 0);
}

#[test]
fn postpartum_contraindications_follow_injuries_in_order() {
    let mut p = make_profile(FitnessLevel::Beginner, true);
    p.injury_notes = vec![Contraindication::Knee, Contraindication::Back];
    assert_eq!(
        p.all_contraindications(),
        vec![
            Contraindication::Knee,
            Contraindication::Back,
            Contraindication::Postpartum,
            Contraindication::DiastasisRecti
        ]
    );
}
