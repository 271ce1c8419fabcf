//! What actions and statuses do to a single die: damage, healing and the
//! application of a status.

use crate::battle::{has_living, valid_dice, Battle};
use crate::dice_instance::{DiceID, DiceState};
use crate::events::{AccessError, DiceDied};
use crate::status::{applied, Status};
use vstd::prelude::*;

verus! {

/// The dice after the living die named `dice_id` has taken `amount` damage.
pub open spec fn damaged(dice: Seq<DiceState>, dice_id: DiceID, amount: u32) -> Seq<DiceState> {
    dice.map_values(
        |d: DiceState|
            if d.dice.id == dice_id && d.alive() {
                d.hit(amount)
            } else {
                d
            },
    )
}

/// The dice after the living die named `dice_id` has been healed by `amount`.
pub open spec fn healed(dice: Seq<DiceState>, dice_id: DiceID, amount: u32) -> Seq<DiceState> {
    dice.map_values(
        |d: DiceState|
            if d.dice.id == dice_id && d.alive() {
                d.mended(amount)
            } else {
                d
            },
    )
}

/// The dice after a status has been applied to the living die named `dice_id`.
pub open spec fn with_status<S: Status>(dice: Seq<DiceState>, dice_id: DiceID, status: S) -> Seq<
    DiceState,
> {
    dice.map_values(
        |d: DiceState|
            if d.dice.id == dice_id && d.alive() {
                S::put(d, applied(S::slot(d), status))
            } else {
                d
            },
    )
}

/// Changing the one die that carries a name is changing every living die
/// that carries it.
pub proof fn lemma_update_is_map(
    dice: Seq<DiceState>,
    i: int,
    change: spec_fn(DiceState) -> DiceState,
)
    requires
        valid_dice(dice),
        0 <= i < dice.len(),
        dice[i].alive(),
    ensures
        dice.update(i, change(dice[i])) == dice.map_values(
            |d: DiceState|
                if d.dice.id == dice[i].dice.id && d.alive() {
                    change(d)
                } else {
                    d
                },
        ),
{
    let id = dice[i].dice.id;
    let mapped = dice.map_values(
        |d: DiceState|
            if d.dice.id == id && d.alive() {
                change(d)
            } else {
                d
            },
    );
    assert forall|j: int| 0 <= j < dice.len() implies dice.update(i, change(dice[i]))[j]
        == mapped[j] by {
        if j != i {
            assert(dice[j].dice.id != dice[i].dice.id);
        }
    }
    assert(dice.update(i, change(dice[i])) =~= mapped);
}

/// Deals damage to a die. Health stops at zero; a die that reaches zero is
/// dead, and its death is reported.
pub fn damage(battle: &mut Battle, dice_id: DiceID, amount: u32) -> (result: Result<
    Option<DiceDied>,
    AccessError,
>)
    requires
        old(battle).wf(),
    ensures
        final(battle).wf(),
        result is Ok <==> has_living(old(battle)@, dice_id),
        result is Err ==> final(battle)@ == old(battle)@,
        result is Ok ==> final(battle)@ == damaged(old(battle)@, dice_id, amount),
        result matches Ok(signal) ==> signal == if has_living(final(battle)@, dice_id) {
            None
        } else {
            Some(DiceDied { dice_id })
        },
{
    match battle.find(dice_id) {
        Some(i) => {
            let mut die = battle.at(i);
            let died = die.take_damage(amount);
            proof {
                lemma_update_is_map(battle@, i as int, |d: DiceState| d.hit(amount));
                assert(battle@.update(i as int, die) =~= damaged(battle@, dice_id, amount));
            }
            battle.replace(i, die);
            proof {
                if has_living(battle@, dice_id) {
                    let j = choose|j: int|
                        0 <= j < battle@.len() && (#[trigger] battle@[j]).dice.id == dice_id
                            && battle@[j].alive();
                    assert(battle@[i as int].dice.id == dice_id);
                    assert(j == i);
                }
            }
            if died {
                Ok(Some(DiceDied { dice_id }))
            } else {
                Ok(None)
            }
        },
        None => Err(AccessError::InvalidDiceID),
    }
}

/// Heals a die. Health stops at the die's maximum.
pub fn heal(battle: &mut Battle, dice_id: DiceID, heal_amount: u32) -> (result: Result<
    (),
    AccessError,
>)
    requires
        old(battle).wf(),
    ensures
        final(battle).wf(),
        result is Ok <==> has_living(old(battle)@, dice_id),
        result is Err ==> final(battle)@ == old(battle)@,
        result is Ok ==> final(battle)@ == healed(old(battle)@, dice_id, heal_amount),
{
    match battle.find(dice_id) {
        Some(i) => {
            let mut die = battle.at(i);
            die.mend(heal_amount);
            proof {
                lemma_update_is_map(battle@, i as int, |d: DiceState| d.mended(heal_amount));
                assert(battle@.update(i as int, die) =~= healed(battle@, dice_id, heal_amount));
            }
            battle.replace(i, die);
            Ok(())
        },
        None => Err(AccessError::InvalidDiceID),
    }
}

/// Puts a status on a die. Where the die already carries a status of the
/// kind, the two are combined into one.
pub fn apply_status<S: Status>(battle: &mut Battle, dice_id: DiceID, status: S) -> (result: Result<
    (),
    AccessError,
>)
    requires
        old(battle).wf(),
    ensures
        final(battle).wf(),
        result is Ok <==> has_living(old(battle)@, dice_id),
        result is Err ==> final(battle)@ == old(battle)@,
        result is Ok ==> final(battle)@ == with_status(old(battle)@, dice_id, status),
{
    match battle.find(dice_id) {
        Some(i) => {
            let mut die = battle.at(i);
            let new_status = match S::get(&die) {
                Some(current_status) => current_status.combine(status),
                None => status,
            };
            S::set(&mut die, Some(new_status));
            proof {
                lemma_update_is_map(
                    battle@,
                    i as int,
                    |d: DiceState| S::put(d, applied(S::slot(d), status)),
                );
                assert(battle@.update(i as int, die) =~= with_status(battle@, dice_id, status));
            }
            battle.replace(i, die);
            Ok(())
        },
        None => Err(AccessError::InvalidDiceID),
    }
}

} // verus!
