use dice_battle::action::{attack, double, fire, get_pips, regenerate, resolve, resolve_once, REGENERATION_ROUNDS};
use dice_battle::battle::Battle;
use dice_battle::dice_instance::DiceID;
use dice_battle::dice_template::DiceTemplate;
use dice_battle::events::{AccessError, DiceDied};
use dice_battle::face::{Action, FaceBackground, FacePrototype};
use dice_battle::interaction::{apply_status, damage, heal};
use dice_battle::select_targets::ResolutionContext;
use dice_battle::status::{Burning, Double, Regeneration};

fn template(hp: u32) -> DiceTemplate {
    let empty = FacePrototype { action: Action::Empty, pips: None, background: FaceBackground::Empty };
    DiceTemplate { hp, faces: [empty; 6] }
}

fn battle_of(team1: &[u32], team2: &[u32]) -> Battle {
    let first: Vec<DiceTemplate> = team1.iter().map(|hp| template(*hp)).collect();
    let second: Vec<DiceTemplate> = team2.iter().map(|hp| template(*hp)).collect();
    Battle::new(&first, &second).unwrap()
}

fn id(team_id: usize, dice_id: usize) -> DiceID {
    DiceID { team_id, dice_id }
}

fn context(dice_id: DiceID, action: Action, pips: Option<u32>, background: FaceBackground) -> ResolutionContext {
    ResolutionContext { face: FacePrototype { action, pips, background }, dice_id }
}

#[test]
fn spawned_battle_holds_both_teams_in_order() {
    let battle = battle_of(&[3, 4], &[5]);
    assert_eq!(battle.len(), 3);
    let dice = battle.dice();
    assert_eq!(dice[0].dice.id, id(0, 0));
    assert_eq!(dice[1].dice.id, id(0, 1));
    assert_eq!(dice[2].dice.id, id(1, 0));
    assert_eq!(dice[1].health.max, 4);
    assert_eq!(dice[1].health.current, 4);
    assert_eq!(dice[1].dice.row_position, 1);
    assert_eq!(battle.at(2).health.current, 5);
    assert_eq!(battle.find(id(1, 0)), Some(2));
    assert_eq!(battle.find(id(1, 1)), None);
    assert!(battle.get(id(2, 0)).is_none());
}

#[test]
fn damage_reports_death_and_unknown_dice() {
    let mut battle = battle_of(&[5], &[5]);
    assert_eq!(damage(&mut battle, id(1, 0), 3), Ok(None));
    assert_eq!(battle.get(id(1, 0)).unwrap().health.current, 2);
    assert_eq!(damage(&mut battle, id(1, 0), 3), Ok(Some(DiceDied { dice_id: id(1, 0) })));
    assert_eq!(battle.dice()[1].health.current, 0);
    assert_eq!(damage(&mut battle, id(1, 0), 3), Err(AccessError::InvalidDiceID));
    assert_eq!(damage(&mut battle, id(0, 9), 3), Err(AccessError::InvalidDiceID));
    assert_eq!(battle.get(id(0, 0)).unwrap().health.current, 5);
}

#[test]
fn heal_reaches_only_living_dice() {
    let mut battle = battle_of(&[5], &[5]);
    damage(&mut battle, id(0, 0), 4).unwrap();
    assert_eq!(heal(&mut battle, id(0, 0), 2), Ok(()));
    assert_eq!(battle.get(id(0, 0)).unwrap().health.current, 3);
    assert_eq!(heal(&mut battle, id(0, 0), 20), Ok(()));
    assert_eq!(battle.get(id(0, 0)).unwrap().health.current, 5);
    damage(&mut battle, id(1, 0), 5).unwrap();
    assert_eq!(heal(&mut battle, id(1, 0), 2), Err(AccessError::InvalidDiceID));
    assert_eq!(battle.dice()[1].health.current, 0);
}

#[test]
fn applying_a_status_twice_combines() {
    let mut battle = battle_of(&[5], &[5]);
    assert_eq!(apply_status(&mut battle, id(1, 0), Burning { intensity: 2 }), Ok(()));
    assert_eq!(apply_status(&mut battle, id(1, 0), Burning { intensity: 3 }), Ok(()));
    assert_eq!(battle.get(id(1, 0)).unwrap().burning, Some(Burning { intensity: 5 }));
    apply_status(&mut battle, id(1, 0), Regeneration { heal_amount: 1, duration_left: 3 }).unwrap();
    apply_status(&mut battle, id(1, 0), Regeneration { heal_amount: 2, duration_left: 1 }).unwrap();
    assert_eq!(
        battle.get(id(1, 0)).unwrap().regeneration,
        Some(Regeneration { heal_amount: 3, duration_left: 3 })
    );
    assert_eq!(battle.get(id(0, 0)).unwrap().burning, None);
    assert_eq!(apply_status(&mut battle, id(3, 0), Double), Err(AccessError::InvalidDiceID));
}

#[test]
fn double_doubles_pips_once() {
    let mut battle = battle_of(&[5], &[5]);
    assert_eq!(get_pips(&mut battle, id(0, 0), 3), 3);
    apply_status(&mut battle, id(0, 0), Double).unwrap();
    assert_eq!(get_pips(&mut battle, id(1, 0), 3), 3);
    assert_eq!(battle.get(id(0, 0)).unwrap().double, Some(Double));
    assert_eq!(get_pips(&mut battle, id(0, 0), 3), 6);
    assert_eq!(battle.get(id(0, 0)).unwrap().double, None);
    assert_eq!(get_pips(&mut battle, id(0, 0), 3), 3);
}

#[test]
fn defending_twice_does_not_quadruple_the_next_attack() {
    let mut battle = battle_of(&[5], &[20]);
    let defend = context(id(0, 0), Action::Defend, None, FaceBackground::Empty);
    assert_eq!(resolve(&mut battle, defend), Ok(vec![None]));
    assert_eq!(resolve(&mut battle, defend), Ok(vec![None]));
    assert_eq!(battle.get(id(0, 0)).unwrap().double, Some(Double));
    let strike = context(id(0, 0), Action::Attack, Some(3), FaceBackground::Empty);
    assert_eq!(resolve(&mut battle, strike), Ok(vec![Some(id(1, 0))]));
    assert_eq!(battle.get(id(1, 0)).unwrap().health.current, 14);
    assert_eq!(resolve(&mut battle, strike), Ok(vec![Some(id(1, 0))]));
    assert_eq!(battle.get(id(1, 0)).unwrap().health.current, 11);
}

#[test]
fn attack_damages_an_enemy_or_fizzles() {
    let mut battle = battle_of(&[5], &[5]);
    let strike = context(id(0, 0), Action::Attack, Some(2), FaceBackground::Empty);
    assert_eq!(attack(&mut battle, 2, strike), Some(id(1, 0)));
    assert_eq!(battle.get(id(1, 0)).unwrap().health.current, 3);
    assert_eq!(attack(&mut battle, 7, strike), Some(id(1, 0)));
    assert!(battle.get(id(1, 0)).is_none());
    assert_eq!(attack(&mut battle, 7, strike), None);
    assert_eq!(battle.get(id(0, 0)).unwrap().health.current, 5);
}

#[test]
fn attack_with_zero_pips_still_finds_its_target() {
    let mut battle = battle_of(&[5], &[5]);
    let strike = context(id(0, 0), Action::Attack, Some(0), FaceBackground::Empty);
    assert_eq!(attack(&mut battle, 0, strike), Some(id(1, 0)));
    assert_eq!(battle.get(id(1, 0)).unwrap().health.current, 5);
}

#[test]
fn fire_sets_an_enemy_burning() {
    let mut battle = battle_of(&[5], &[5]);
    let flame = context(id(0, 0), Action::Fire, Some(2), FaceBackground::Empty);
    assert_eq!(fire(&mut battle, 2, flame), Some(id(1, 0)));
    assert_eq!(battle.get(id(1, 0)).unwrap().burning, Some(Burning { intensity: 2 }));
    assert_eq!(battle.get(id(1, 0)).unwrap().health.current, 5);
    assert_eq!(fire(&mut battle, 0, flame), None);
    assert_eq!(battle.get(id(1, 0)).unwrap().burning, Some(Burning { intensity: 2 }));
    assert_eq!(fire(&mut battle, 1, flame), Some(id(1, 0)));
    assert_eq!(battle.get(id(1, 0)).unwrap().burning, Some(Burning { intensity: 3 }));
}

#[test]
fn regenerate_gives_an_ally_three_rounds_of_healing() {
    let mut battle = battle_of(&[5, 5], &[5]);
    let mend = context(id(0, 0), Action::Regenerate, Some(2), FaceBackground::Empty);
    assert_eq!(REGENERATION_ROUNDS, 3);
    assert_eq!(regenerate(&mut battle, 2, mend), Some(id(0, 1)));
    assert_eq!(
        battle.get(id(0, 1)).unwrap().regeneration,
        Some(Regeneration { heal_amount: 2, duration_left: 3 })
    );
    assert_eq!(battle.get(id(0, 0)).unwrap().regeneration, None);
    assert_eq!(regenerate(&mut battle, 0, mend), None);
    let lonely = context(id(1, 0), Action::Regenerate, Some(2), FaceBackground::Empty);
    assert_eq!(regenerate(&mut battle, 2, lonely), None);
    assert_eq!(battle.get(id(1, 0)).unwrap().regeneration, None);
}

#[test]
fn double_action_fails_for_a_dead_die() {
    let mut battle = battle_of(&[5], &[5]);
    let guard = context(id(0, 0), Action::Defend, None, FaceBackground::Empty);
    assert_eq!(double(&mut battle, guard), Ok(()));
    assert_eq!(battle.get(id(0, 0)).unwrap().double, Some(Double));
    damage(&mut battle, id(0, 0), 5).unwrap();
    assert_eq!(double(&mut battle, guard), Err(AccessError::InvalidDiceID));
    assert_eq!(resolve_once(&mut battle, guard), Err(AccessError::InvalidDiceID));
    assert_eq!(resolve(&mut battle, guard), Err(AccessError::InvalidDiceID));
}

#[test]
fn double_background_resolves_twice_in_a_row() {
    let mut battle = battle_of(&[5], &[5, 5]);
    let strike = context(id(0, 0), Action::Attack, Some(1), FaceBackground::Double);
    let targets = resolve(&mut battle, strike).unwrap();
    assert_eq!(targets.len(), 2);
    let lost: u32 = battle.dice().iter().filter(|d| d.dice.id.team_id == 1).map(|d| 5 - d.health.current).sum();
    assert_eq!(lost, 2);
}

#[test]
fn double_status_counts_for_the_first_of_two_resolutions_only() {
    let mut battle = battle_of(&[5], &[20]);
    apply_status(&mut battle, id(0, 0), Double).unwrap();
    let strike = context(id(0, 0), Action::Attack, Some(3), FaceBackground::Double);
    assert_eq!(resolve(&mut battle, strike), Ok(vec![Some(id(1, 0)), Some(id(1, 0))]));
    assert_eq!(battle.get(id(1, 0)).unwrap().health.current, 20 - 6 - 3);
}

#[test]
fn second_resolution_looks_for_a_new_target() {
    let mut battle = battle_of(&[5], &[1]);
    let strike = context(id(0, 0), Action::Attack, Some(1), FaceBackground::Double);
    assert_eq!(resolve(&mut battle, strike), Ok(vec![Some(id(1, 0)), None]));
}

#[test]
fn empty_and_fiery_faces_do_nothing() {
    let mut battle = battle_of(&[5], &[5]);
    let before = battle.dice();
    assert_eq!(resolve(&mut battle, context(id(0, 0), Action::Empty, None, FaceBackground::Empty)), Ok(vec![None]));
    assert_eq!(resolve(&mut battle, context(id(0, 0), Action::Fiery, None, FaceBackground::Double)), Ok(vec![None, None]));
    assert_eq!(battle.dice(), before);
}

#[test]
fn cruel_attack_hits_the_weakest_enemy() {
    let mut battle = battle_of(&[5], &[9, 3, 6]);
    let strike = context(id(0, 0), Action::Attack, Some(2), FaceBackground::Cruel);
    assert_eq!(resolve(&mut battle, strike), Ok(vec![Some(id(1, 1))]));
    assert_eq!(battle.get(id(1, 1)).unwrap().health.current, 1);
}
