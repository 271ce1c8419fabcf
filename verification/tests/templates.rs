use dice_battle::dice_template::{Challenge, DiceTemplate, DiceTemplateBuilder, FaceId, DICE_COUNT};
use dice_battle::face::{Action, FaceBackground, FacePrototype};
use dice_battle::face_prototypes::{
    attack_double, attack_strong, attack_strong_cruel, attack_weak, defend, empty, fiery, fire_strong, fire_weak,
    regen_strong, regen_weak,
};

#[test]
fn stock_faces() {
    assert_eq!(empty(), FacePrototype { action: Action::Empty, pips: None, background: FaceBackground::Empty });
    assert_eq!(attack_weak(), FacePrototype { action: Action::Attack, pips: Some(1), background: FaceBackground::Empty });
    assert_eq!(attack_double(), FacePrototype { action: Action::Attack, pips: Some(1), background: FaceBackground::Double });
    assert_eq!(attack_strong(), FacePrototype { action: Action::Attack, pips: Some(2), background: FaceBackground::Empty });
    assert_eq!(
        attack_strong_cruel(),
        FacePrototype { action: Action::Attack, pips: Some(2), background: FaceBackground::Cruel }
    );
    assert_eq!(defend(), FacePrototype { action: Action::Defend, pips: None, background: FaceBackground::Empty });
    assert_eq!(regen_weak(), FacePrototype { action: Action::Regenerate, pips: Some(1), background: FaceBackground::Empty });
    assert_eq!(regen_strong(), FacePrototype { action: Action::Regenerate, pips: Some(2), background: FaceBackground::Empty });
    assert_eq!(fire_weak(), FacePrototype { action: Action::Fire, pips: Some(1), background: FaceBackground::Empty });
    assert_eq!(fire_strong(), FacePrototype { action: Action::Fire, pips: Some(2), background: FaceBackground::Empty });
    assert_eq!(fiery(), FacePrototype { action: Action::Fiery, pips: None, background: FaceBackground::Empty });
}

#[test]
fn face_builders() {
    let face = FacePrototype::new(Action::Fire, Some(4));
    assert_eq!(face.background, FaceBackground::Empty);
    assert_eq!(face.with_pips(7).pips, Some(7));
    assert_eq!(face.with_background(FaceBackground::Cruel).background, FaceBackground::Cruel);
    assert_eq!(face.with_background(FaceBackground::Cruel).pips, Some(4));
    assert_eq!(Action::default(), Action::Empty);
    assert_eq!(FaceBackground::default(), FaceBackground::Empty);
}

#[test]
fn actions_that_read_pips() {
    assert!(Action::Attack.uses_pips());
    assert!(Action::Regenerate.uses_pips());
    assert!(Action::Fire.uses_pips());
    assert!(!Action::Empty.uses_pips());
    assert!(!Action::Defend.uses_pips());
    assert!(!Action::Fiery.uses_pips());
}

#[test]
fn background_repeats_and_descriptions() {
    assert_eq!(FaceBackground::Empty.repeats(), 1);
    assert_eq!(FaceBackground::Cruel.repeats(), 1);
    assert_eq!(FaceBackground::Double.repeats(), 2);
    assert_eq!(FaceBackground::Empty.description(), None);
    assert_eq!(FaceBackground::Cruel.description(), Some("Targets the lowest-health dice".to_string()));
    assert_eq!(FaceBackground::Double.description(), Some("Triggers two times".to_string()));
}

#[test]
fn face_id_positions() {
    assert_eq!(FaceId::Top.index(), 0);
    assert_eq!(FaceId::Left.index(), 1);
    assert_eq!(FaceId::Right.index(), 2);
    assert_eq!(FaceId::Middle.index(), 3);
    assert_eq!(FaceId::NearBottom.index(), 4);
    assert_eq!(FaceId::FarBottom.index(), 5);
    assert_eq!(DICE_COUNT, 5);
}

#[test]
fn builder_needs_hit_points_and_faces() {
    let builder = DiceTemplateBuilder::default();
    assert_eq!(builder.build(), None);
    assert_eq!(builder.with_hp(3).build(), None);
    assert_eq!(builder.with_face_set([empty(); 6]).build(), None);
    let template = builder.with_hp(3).with_face_set([defend(); 6]).build();
    assert_eq!(template, Some(DiceTemplate { hp: 3, faces: [defend(); 6] }));
}

#[test]
fn builder_replaces_single_faces() {
    let builder = DiceTemplateBuilder::default()
        .with_hp(1)
        .with_face_set([empty(); 6])
        .with_face(FaceId::Right, fire_weak())
        .with_face(FaceId::FarBottom, defend());
    assert_eq!(builder.faces, Some([empty(), empty(), fire_weak(), empty(), empty(), defend()]));
    assert_eq!(builder.hp, Some(1));
}

#[test]
fn berserker_by_level() {
    let cruel3 = attack_strong_cruel().with_pips(3);
    let expected = [
        (6, [empty(), attack_strong_cruel(), attack_strong(), empty(), empty(), empty()]),
        (7, [empty(), attack_strong_cruel(), attack_strong(), attack_strong(), empty(), empty()]),
        (8, [defend(), attack_strong_cruel(), attack_strong(), attack_strong(), empty(), empty()]),
        (9, [defend(), cruel3, cruel3, attack_strong(), empty(), empty()]),
    ];
    for (level, (hp, faces)) in (1u32..=4).zip(expected) {
        let builder = DiceTemplateBuilder::berserker(level);
        assert_eq!(builder.hp, Some(hp));
        assert_eq!(builder.faces, Some(faces));
    }
}

#[test]
fn paladin_by_level() {
    let cruel3 = attack_strong_cruel().with_pips(3);
    let expected = [
        (6, [empty(), attack_weak(), defend(), regen_weak(), empty(), empty()]),
        (8, [empty(), attack_strong(), defend(), regen_weak(), empty(), empty()]),
        (10, [attack_weak(), attack_strong(), defend(), regen_weak(), attack_weak(), empty()]),
        (12, [attack_weak(), cruel3, defend(), regen_weak(), attack_weak(), empty()]),
    ];
    for (level, (hp, faces)) in (1u32..=4).zip(expected) {
        let builder = DiceTemplateBuilder::paladin(level);
        assert_eq!(builder.hp, Some(hp));
        assert_eq!(builder.faces, Some(faces));
    }
}

#[test]
fn mage_by_level() {
    let fire3 = fire_strong().with_pips(3);
    let expected = [
        (3, [empty(), fire_strong(), fire_strong(), regen_weak(), empty(), empty()]),
        (4, [empty(), fire_strong(), fire_strong(), regen_weak(), fire_weak(), empty()]),
        (5, [fire_weak(), fire_strong(), fire_strong(), regen_weak(), fire_weak(), empty()]),
        (6, [fire_weak(), fire3, fire3, regen_weak(), fire_weak(), empty()]),
    ];
    for (level, (hp, faces)) in (1u32..=4).zip(expected) {
        let builder = DiceTemplateBuilder::mage(level);
        assert_eq!(builder.hp, Some(hp));
        assert_eq!(builder.faces, Some(faces));
    }
}

#[test]
fn cleric_by_level() {
    let regen3 = regen_strong().with_pips(3);
    let expected = [
        (5, [empty(), defend(), regen_strong(), empty(), empty(), empty()]),
        (7, [empty(), defend(), regen_strong(), regen_weak(), empty(), empty()]),
        (9, [regen_weak(), defend(), regen_strong(), regen_weak(), empty(), empty()]),
        (11, [regen_weak(), regen3, regen3, regen_weak(), empty(), empty()]),
    ];
    for (level, (hp, faces)) in (1u32..=4).zip(expected) {
        let builder = DiceTemplateBuilder::cleric(level);
        assert_eq!(builder.hp, Some(hp));
        assert_eq!(builder.faces, Some(faces));
    }
}

#[test]
fn rogue_by_level() {
    let expected = [
        (4, [empty(), attack_double(), attack_double(), empty(), empty(), empty()]),
        (5, [empty(), attack_double(), attack_double(), attack_weak(), empty(), empty()]),
        (6, [attack_weak(), attack_double(), attack_double(), attack_weak(), empty(), empty()]),
        (7, [attack_weak(), attack_strong_cruel(), attack_double(), attack_weak(), attack_weak(), empty()]),
    ];
    for (level, (hp, faces)) in (1u32..=4).zip(expected) {
        let builder = DiceTemplateBuilder::rogue(level);
        assert_eq!(builder.hp, Some(hp));
        assert_eq!(builder.faces, Some(faces));
    }
}

#[test]
fn challenge_brings_one_die_of_each_class() {
    let challenge = Challenge::new(2);
    assert_eq!(challenge.0.len(), DICE_COUNT);
    assert_eq!(challenge.0[0], DiceTemplateBuilder::berserker(2));
    assert_eq!(challenge.0[1], DiceTemplateBuilder::paladin(2));
    assert_eq!(challenge.0[2], DiceTemplateBuilder::cleric(2));
    assert_eq!(challenge.0[3], DiceTemplateBuilder::mage(2));
    assert_eq!(challenge.0[4], DiceTemplateBuilder::rogue(2));
    for builder in challenge.0 {
        assert!(builder.build().unwrap().is_well_formed());
    }
}

#[test]
fn template_well_formedness() {
    assert!(DiceTemplate { hp: 1, faces: [defend(); 6] }.is_well_formed());
    let mut faces = [attack_weak(); 6];
    assert!(DiceTemplate { hp: 1, faces }.is_well_formed());
    faces[5] = FacePrototype { action: Action::Fire, pips: None, background: FaceBackground::Empty };
    assert!(!DiceTemplate { hp: 1, faces }.is_well_formed());
    faces[5] = FacePrototype { action: Action::Defend, pips: Some(2), background: FaceBackground::Empty };
    assert!(DiceTemplate { hp: 1, faces }.is_well_formed());
}

#[test]
fn a_bought_face_keeps_the_background_it_is_laid_on() {
    let cruel = attack_strong_cruel();
    assert_eq!(
        cruel.overlaid(fire_weak()),
        FacePrototype { action: Action::Fire, pips: Some(1), background: FaceBackground::Cruel }
    );
    assert_eq!(empty().overlaid(defend()), defend());
    assert_eq!(
        attack_double().overlaid(fiery()),
        FacePrototype { action: Action::Fiery, pips: None, background: FaceBackground::Double }
    );
}
