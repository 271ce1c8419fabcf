use dice_battle::dice_instance::{Dice, DiceID, DiceState, Health};
use dice_battle::dice_template::DiceTemplate;
use dice_battle::events::{GetPips, StartRound};
use dice_battle::face::{Action, FaceBackground, FacePrototype};
use dice_battle::status::{apply_to_slot, decay_slot, Burning, Double, Regeneration, Status};

fn plain_die(hp: u32) -> DiceState {
    let empty = FacePrototype { action: Action::Empty, pips: None, background: FaceBackground::Empty };
    DiceState::spawn(&DiceTemplate { hp, faces: [empty; 6] }, DiceID { team_id: 0, dice_id: 3 })
}

#[test]
fn health_starts_full() {
    let health = Health::new(7);
    assert_eq!(health, Health { max: 7, current: 7 });
    assert!(health.is_alive());
    assert!(!Health::new(0).is_alive());
}

#[test]
fn damage_stops_at_zero() {
    let mut health = Health::new(5);
    assert!(!health.damage(3));
    assert_eq!(health, Health { max: 5, current: 2 });
    assert!(health.damage(9));
    assert_eq!(health, Health { max: 5, current: 0 });
    assert!(health.damage(0));
    assert_eq!(health.current, 0);
}

#[test]
fn damage_of_exactly_the_health_kills() {
    let mut health = Health { max: 9, current: 4 };
    assert!(health.damage(4));
    assert_eq!(health.current, 0);
}

#[test]
fn zero_damage_leaves_a_living_die_alone() {
    let mut health = Health { max: 9, current: 4 };
    assert!(!health.damage(0));
    assert_eq!(health.current, 4);
}

#[test]
fn heal_stops_at_max() {
    let mut health = Health { max: 10, current: 4 };
    health.heal(3);
    assert_eq!(health.current, 7);
    health.heal(3);
    assert_eq!(health.current, 10);
    health.heal(u32::MAX);
    assert_eq!(health, Health { max: 10, current: 10 });
}

#[test]
fn heal_does_not_overflow() {
    let mut health = Health { max: u32::MAX, current: u32::MAX - 1 };
    health.heal(5);
    assert_eq!(health.current, u32::MAX);
}

#[test]
fn health_stays_in_bounds_under_any_sequence() {
    let mut health = Health::new(6);
    let steps: [(bool, u32); 8] =
        [(true, 2), (false, 1), (false, 100), (true, 5), (true, 5), (false, 3), (true, u32::MAX), (false, u32::MAX)];
    for (is_damage, amount) in steps {
        if is_damage {
            health.damage(amount);
        } else {
            health.heal(amount);
        }
        assert!(health.current <= health.max);
        assert_eq!(health.max, 6);
    }
    assert_eq!(health.current, 6);
}

#[test]
fn dice_accessors() {
    let mut dice = Dice::new(DiceID { team_id: 1, dice_id: 4 });
    assert_eq!(dice.id(), DiceID { team_id: 1, dice_id: 4 });
    assert_eq!(dice.row_position(), 4);
    dice.set_row_position(2);
    assert_eq!(dice.row_position(), 2);
    dice.set_id(DiceID { team_id: 0, dice_id: 1 });
    assert_eq!(dice.id(), DiceID { team_id: 0, dice_id: 1 });
    assert_eq!(dice.row_position(), 2);
}

#[test]
fn burning_combines_by_adding() {
    let merged = Burning { intensity: 2 }.combine(Burning { intensity: 3 });
    assert_eq!(merged, Burning { intensity: 5 });
    assert_eq!(merged.intensity(), Some(5));
}

#[test]
fn burning_combine_is_commutative_and_associative() {
    let (a, b, c) = (Burning { intensity: 1 }, Burning { intensity: 4 }, Burning { intensity: 9 });
    assert_eq!(a.combine(b), b.combine(a));
    assert_eq!(a.combine(b).combine(c), a.combine(b.combine(c)));
    assert_eq!(a.combine(b).combine(c), Burning { intensity: 14 });
}

#[test]
fn burning_combine_is_held_at_the_largest_value() {
    let merged = Burning { intensity: u32::MAX }.combine(Burning { intensity: 1 });
    assert_eq!(merged, Burning { intensity: u32::MAX });
}

#[test]
fn burning_applied_to_a_burning_die_leaves_one_burn() {
    let mut slot = Some(Burning { intensity: 3 });
    apply_to_slot(&mut slot, Burning { intensity: 2 });
    assert_eq!(slot, Some(Burning { intensity: 5 }));
    let mut empty: Option<Burning> = None;
    apply_to_slot(&mut empty, Burning { intensity: 2 });
    assert_eq!(empty, Some(Burning { intensity: 2 }));
}

#[test]
fn burning_decays_and_expires_at_zero() {
    let mut burn = Burning { intensity: 2 };
    assert!(!burn.update());
    assert_eq!(burn.intensity, 1);
    assert!(burn.update());
    assert_eq!(burn.intensity, 0);
    assert!(burn.update());
    assert_eq!(burn.intensity, 0);
}

#[test]
fn regeneration_combines_amounts_and_keeps_longer_duration() {
    let a = Regeneration { heal_amount: 2, duration_left: 3 };
    let b = Regeneration { heal_amount: 1, duration_left: 1 };
    assert_eq!(a.combine(b), Regeneration { heal_amount: 3, duration_left: 3 });
    assert_eq!(b.combine(a), Regeneration { heal_amount: 3, duration_left: 3 });
    let c = Regeneration { heal_amount: 5, duration_left: 7 };
    assert_eq!(a.combine(b).combine(c), a.combine(b.combine(c)));
    assert_eq!(a.combine(c).intensity(), Some(7));
}

#[test]
fn regeneration_lasts_its_duration() {
    let mut slot = Some(Regeneration { heal_amount: 1, duration_left: 3 });
    decay_slot(&mut slot);
    assert_eq!(slot, Some(Regeneration { heal_amount: 1, duration_left: 2 }));
    decay_slot(&mut slot);
    assert_eq!(slot, Some(Regeneration { heal_amount: 1, duration_left: 1 }));
    decay_slot(&mut slot);
    assert_eq!(slot, None);
    decay_slot(&mut slot);
    assert_eq!(slot, None);
}

#[test]
fn double_is_one_shot_and_does_not_stack() {
    let mut double = Double;
    assert!(double.update());
    assert_eq!(Double.combine(Double), Double);
    assert_eq!(Double.intensity(), None);
    let mut slot = Some(Double);
    apply_to_slot(&mut slot, Double);
    assert_eq!(slot, Some(Double));
    decay_slot(&mut slot);
    assert_eq!(slot, None);
}

#[test]
fn double_doubles_the_pips_of_its_own_die_only() {
    let own = DiceID { team_id: 0, dice_id: 3 };
    let event = GetPips { dice_id: own, pips: 3 };
    assert!(Double.trigger_condition(&Dice::new(own), event));
    assert!(!Double.trigger_condition(&Dice::new(DiceID { team_id: 0, dice_id: 2 }), event));
    assert_eq!(Double.update_event(own, event), GetPips { dice_id: own, pips: 6 });
    let large = GetPips { dice_id: own, pips: u32::MAX - 1 };
    assert_eq!(Double.update_event(own, large).pips, u32::MAX);
}

#[test]
fn burning_resolves_as_damage_on_its_die() {
    let mut die = plain_die(5);
    let event = StartRound { round: 1 };
    Burning { intensity: 2 }.resolve_status(&mut die, event);
    assert_eq!(die.health.current, 3);
    assert_eq!(Burning { intensity: 2 }.update_event(die.dice.id, event), event);
}

#[test]
fn regeneration_resolves_as_healing_on_its_die() {
    let mut die = plain_die(5);
    die.take_damage(4);
    Regeneration { heal_amount: 2, duration_left: 3 }.resolve_status(&mut die, StartRound { round: 2 });
    assert_eq!(die.health.current, 3);
}

#[test]
fn a_killed_die_loses_its_statuses() {
    let mut die = plain_die(3);
    Burning::set(&mut die, Some(Burning { intensity: 1 }));
    Double::set(&mut die, Some(Double));
    assert_eq!(Burning::get(&die), Some(Burning { intensity: 1 }));
    assert!(!die.take_damage(2));
    assert_eq!(die.burning, Some(Burning { intensity: 1 }));
    assert!(die.take_damage(1));
    assert!(!die.is_alive());
    assert_eq!(die.burning, None);
    assert_eq!(die.double, None);
}

#[test]
fn status_descriptions_are_not_empty() {
    assert!(!Burning::description().is_empty());
    assert!(!Regeneration::description().is_empty());
    assert!(!Double::description().is_empty());
}

#[test]
fn the_snapshot_lists_the_living_carriers_in_order() {
    let templates: Vec<DiceTemplate> =
        (0..3).map(|_| DiceTemplate { hp: 5, faces: [FacePrototype::default(); 6] }).collect();
    let mut battle = dice_battle::battle::Battle::new(&templates, &templates).unwrap();
    let id = |team_id, dice_id| DiceID { team_id, dice_id };
    for (dice_id, intensity) in [(id(0, 2), 1), (id(1, 0), 7), (id(1, 2), 3)] {
        dice_battle::interaction::apply_status(&mut battle, dice_id, Burning { intensity }).unwrap();
    }
    dice_battle::interaction::apply_status(&mut battle, id(0, 0), Double).unwrap();
    dice_battle::interaction::damage(&mut battle, id(1, 2), 5).unwrap();
    let event = StartRound { round: 3 };
    let burning = dice_battle::dispatch::snapshot::<Burning>(&battle, event);
    let found: Vec<(usize, u32)> = burning.iter().map(|p| (p.place, p.status.intensity)).collect();
    assert_eq!(found, vec![(2, 1), (3, 7)]);
    assert!(dice_battle::dispatch::snapshot::<Regeneration>(&battle, event).is_empty());
    let asked = GetPips { dice_id: id(0, 0), pips: 1 };
    assert_eq!(dice_battle::dispatch::snapshot::<Double>(&battle, asked).len(), 1);
    let other = GetPips { dice_id: id(0, 1), pips: 1 };
    assert!(dice_battle::dispatch::snapshot::<Double>(&battle, other).is_empty());
}

#[test]
fn dispatch_lets_every_burn_act_once() {
    let templates: Vec<DiceTemplate> =
        (0..2).map(|_| DiceTemplate { hp: 5, faces: [FacePrototype::default(); 6] }).collect();
    let mut battle = dice_battle::battle::Battle::new(&templates, &templates).unwrap();
    let id = |team_id, dice_id| DiceID { team_id, dice_id };
    dice_battle::interaction::apply_status(&mut battle, id(0, 1), Burning { intensity: 2 }).unwrap();
    dice_battle::interaction::apply_status(&mut battle, id(1, 0), Burning { intensity: 9 }).unwrap();
    dice_battle::interaction::apply_status(&mut battle, id(1, 1), Burning { intensity: 1 }).unwrap();
    let event = StartRound { round: 1 };
    assert_eq!(dice_battle::dispatch::dispatch::<Burning>(&mut battle, event), event);
    let dice = battle.dice();
    assert_eq!(dice[0].health.current, 5);
    assert_eq!((dice[1].health.current, dice[1].burning), (3, Some(Burning { intensity: 1 })));
    assert_eq!((dice[2].health.current, dice[2].burning), (0, None));
    assert_eq!((dice[3].health.current, dice[3].burning), (4, None));
    let asked = GetPips { dice_id: id(0, 0), pips: 4 };
    assert_eq!(dice_battle::dispatch::dispatch::<Double>(&mut battle, asked), asked);
}
