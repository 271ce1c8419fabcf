use dice_battle::battle::Battle;
use dice_battle::dice_instance::DiceID;
use dice_battle::dice_template::DiceTemplate;
use dice_battle::events::StartGame;
use dice_battle::face::{Action, FaceBackground, FacePrototype};
use dice_battle::interaction::{apply_status, damage};
use dice_battle::sequence::{done, has_dice_left, Outcome};
use dice_battle::status::Burning;
use dice_battle::synergy::{team_intensity, Fiery, Synergy, TeamSynergy};

fn face(action: Action) -> FacePrototype {
    FacePrototype { action, pips: None, background: FaceBackground::Empty }
}

fn with_fiery(count: usize) -> DiceTemplate {
    let mut faces = [face(Action::Empty); 6];
    for slot in faces.iter_mut().take(count) {
        *slot = face(Action::Fiery);
    }
    DiceTemplate { hp: 10, faces }
}

fn id(team_id: usize, dice_id: usize) -> DiceID {
    DiceID { team_id, dice_id }
}

#[test]
fn no_fiery_synergy_below_intensity_one() {
    assert_eq!(Fiery::new(0, 1), None);
    assert_eq!(Fiery::new(1, 1), Some(Fiery { intensity: 1, team_id: 1 }));
    assert_eq!(Fiery::new(4, 0).unwrap().intensity(), 4);
}

#[test]
fn fiery_levels_follow_the_break_points() {
    let levels: Vec<u32> =
        (0u32..=7).map(|intensity| Fiery { intensity, team_id: 0 }.level()).collect();
    assert_eq!(levels, vec![0, 1, 1, 2, 2, 3, 3, 3]);
    assert_eq!(Fiery { intensity: 1, team_id: 0 }.break_points(), vec![1, 3, 5]);
    assert_eq!(Fiery { intensity: u32::MAX, team_id: 0 }.level(), 3);
}

#[test]
fn fiery_reads_one_per_fiery_face() {
    assert_eq!(Fiery::read_face(face(Action::Fiery)), 1);
    assert_eq!(Fiery::read_face(face(Action::Fire)), 0);
    assert_eq!(Fiery::read_face(face(Action::Empty)), 0);
    assert_eq!(Fiery::name(), "Fiery");
    assert!(Fiery::description().contains("Burning"));
}

#[test]
fn team_intensity_adds_up_all_faces() {
    assert_eq!(team_intensity::<Fiery>(&vec![]), 0);
    assert_eq!(team_intensity::<Fiery>(&vec![with_fiery(0), with_fiery(0)]), 0);
    assert_eq!(team_intensity::<Fiery>(&vec![with_fiery(2), with_fiery(0), with_fiery(1)]), 3);
    assert_eq!(team_intensity::<Fiery>(&vec![with_fiery(6), with_fiery(6)]), 12);
}

#[test]
fn team_synergy_is_read_for_both_teams() {
    let synergy = TeamSynergy::<Fiery>::update_team_synergy(&vec![with_fiery(3)], &vec![with_fiery(0)]);
    assert_eq!(synergy.synergies, [Some(Fiery { intensity: 3, team_id: 0 }), None]);
    let synergy = TeamSynergy::<Fiery>::update_team_synergy(&vec![], &vec![with_fiery(1), with_fiery(4)]);
    assert_eq!(synergy.synergies, [None, Some(Fiery { intensity: 5, team_id: 1 })]);
    assert_eq!(TeamSynergy::<Fiery>::none().synergies, [None, None]);
}

#[test]
fn fiery_burns_the_living_enemies_only() {
    let mut battle = Battle::new(&vec![with_fiery(3)], &vec![with_fiery(0), with_fiery(0), with_fiery(0)]).unwrap();
    damage(&mut battle, id(1, 1), 10).unwrap();
    apply_status(&mut battle, id(1, 2), Burning { intensity: 4 }).unwrap();
    Fiery { intensity: 3, team_id: 0 }.resolve(&mut battle, StartGame);
    let dice = battle.dice();
    assert_eq!(dice[0].burning, None);
    assert_eq!(dice[1].burning, Some(Burning { intensity: 2 }));
    assert_eq!(dice[2].burning, None);
    assert_eq!(dice[3].burning, Some(Burning { intensity: 6 }));
    assert_eq!(dice[1].health.current, 10);
}

#[test]
fn both_teams_synergies_act_at_the_start() {
    let mut battle = Battle::new(&vec![with_fiery(1)], &vec![with_fiery(5)]).unwrap();
    let synergy = TeamSynergy::<Fiery>::update_team_synergy(&vec![with_fiery(1)], &vec![with_fiery(5)]);
    synergy.trigger(&mut battle, StartGame);
    assert_eq!(battle.get(id(0, 0)).unwrap().burning, Some(Burning { intensity: 3 }));
    assert_eq!(battle.get(id(1, 0)).unwrap().burning, Some(Burning { intensity: 1 }));
}

#[test]
fn the_battle_goes_on_while_both_teams_have_dice() {
    let battle = Battle::new(&vec![with_fiery(0)], &vec![with_fiery(0)]).unwrap();
    assert!(has_dice_left(&battle, 0));
    assert!(has_dice_left(&battle, 1));
    assert!(!has_dice_left(&battle, 2));
    assert_eq!(done(&battle), None);
}

#[test]
fn a_team_without_living_dice_has_lost() {
    let mut battle = Battle::new(&vec![with_fiery(0), with_fiery(0)], &vec![with_fiery(0)]).unwrap();
    damage(&mut battle, id(1, 0), 10).unwrap();
    assert_eq!(done(&battle), Some(Outcome::Team1Won));
    let mut battle = Battle::new(&vec![with_fiery(0), with_fiery(0)], &vec![with_fiery(0)]).unwrap();
    damage(&mut battle, id(0, 0), 10).unwrap();
    assert_eq!(done(&battle), None);
    damage(&mut battle, id(0, 1), 10).unwrap();
    assert_eq!(done(&battle), Some(Outcome::Team2Won));
}

#[test]
fn both_teams_without_living_dice_draw() {
    let mut battle = Battle::new(&vec![with_fiery(0)], &vec![with_fiery(0)]).unwrap();
    damage(&mut battle, id(0, 0), 10).unwrap();
    damage(&mut battle, id(1, 0), 10).unwrap();
    assert_eq!(done(&battle), Some(Outcome::Draw));
    let empty = Battle::new(&vec![], &vec![]).unwrap();
    assert_eq!(done(&empty), Some(Outcome::Draw));
}
