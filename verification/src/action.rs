//! The action resolver: what the face a die has landed on does.

use crate::battle::{distinct_ids, has_living, valid_dice, Battle};
use crate::dice_instance::{DiceID, DiceState};
use crate::dispatch::{dispatch, handed_on, participates};
use crate::events::{AccessError, GetPips};
use crate::face::{Action, FaceBackground, FacePrototype};
use crate::interaction::{apply_status, damage, damaged, with_status};
use crate::select_targets::{
    is_ally, is_enemy, may_target, none_wanted, select_ally, select_enemy, ResolutionContext,
};
use crate::status::{doubled, Burning, Double, Regeneration};
use vstd::prelude::*;

verus! {

/// How many rounds a regeneration lasts when it is applied.
pub const REGENERATION_ROUNDS: u32 = 3;

/// Whether the living die named `dice_id` carries a `Double`.
pub open spec fn has_double(dice: Seq<DiceState>, dice_id: DiceID) -> bool {
    exists|i: int|
        0 <= i < dice.len() && (#[trigger] dice[i]).dice.id == dice_id && dice[i].alive()
            && dice[i].double is Some
}

/// The pips that an action of the die counts for: twice the face's pips
/// where the die carries a `Double`, else the face's pips.
pub open spec fn pips_counted(dice: Seq<DiceState>, dice_id: DiceID, pips: u32) -> u32 {
    if has_double(dice, dice_id) {
        doubled(pips)
    } else {
        pips
    }
}

/// The dice after the die named `dice_id` has been asked for its pips: its
/// `Double`, if it had one, is used up.
pub open spec fn double_spent(dice: Seq<DiceState>, dice_id: DiceID) -> Seq<DiceState> {
    dice.map_values(
        |d: DiceState|
            if d.dice.id == dice_id && d.alive() {
                DiceState { double: None, ..d }
            } else {
                d
            },
    )
}

/// Among dice with distinct names at most one takes part when a die is
/// asked for its pips, so the pips are doubled once or not at all.
pub proof fn lemma_double_once(dice: Seq<DiceState>, count: int, event: GetPips)
    requires
        distinct_ids(dice),
        0 <= count <= dice.len(),
    ensures
        handed_on::<Double>(dice, count, event) == if exists|i: int|
            0 <= i < count && participates::<Double>(#[trigger] dice[i], event) {
            GetPips { dice_id: event.dice_id, pips: doubled(event.pips) }
        } else {
            event
        },
    decreases count,
{
    if count > 0 {
        lemma_double_once(dice, count - 1, event);
        let last = dice[count - 1];
        if participates::<Double>(last, event) {
            assert forall|i: int| 0 <= i < count - 1 implies !participates::<Double>(
                #[trigger] dice[i],
                event,
            ) by {
                assert(dice[i].dice.id != last.dice.id);
            }
        } else {
            if exists|i: int| 0 <= i < count && participates::<Double>(#[trigger] dice[i], event) {
                let i = choose|i: int|
                    0 <= i < count && participates::<Double>(#[trigger] dice[i], event);
                assert(i < count - 1);
            }
        }
    }
}

/// Asks how many pips an action of the die counts for. A `Double` on the
/// die doubles the pips and is used up by the question.
pub fn get_pips(battle: &mut Battle, dice_id: DiceID, pips: u32) -> (counted: u32)
    requires
        old(battle).wf(),
    ensures
        final(battle).wf(),
        counted == pips_counted(old(battle)@, dice_id, pips),
        final(battle)@ == double_spent(old(battle)@, dice_id),
{
    let event = GetPips { dice_id, pips };
    let new_event = dispatch::<Double>(battle, event);
    proof {
        let before = old(battle)@;
        lemma_double_once(before, before.len() as int, event);
        if has_double(before, dice_id) {
            let i = choose|i: int|
                0 <= i < before.len() && (#[trigger] before[i]).dice.id == dice_id
                    && before[i].alive() && before[i].double is Some;
            assert(participates::<Double>(before[i], event));
        }
        assert(battle@ =~= double_spent(before, dice_id));
    }
    new_event.pips
}

/// The dice after an attack for `pips` that was aimed at `target`, or that
/// found no target.
pub open spec fn attacked(dice: Seq<DiceState>, target: Option<DiceID>, pips: u32) -> Seq<
    DiceState,
> {
    match target {
        Some(target_id) => damaged(dice, target_id, pips),
        None => dice,
    }
}

/// The dice after a fire action for `pips` that was aimed at `target`, or
/// that found no target.
pub open spec fn fired_at(dice: Seq<DiceState>, target: Option<DiceID>, pips: u32) -> Seq<
    DiceState,
> {
    match target {
        Some(target_id) => with_status(dice, target_id, Burning { intensity: pips }),
        None => dice,
    }
}

/// The dice after a regenerate action for `pips` that was aimed at
/// `target`, or that found no target.
pub open spec fn regenerated(dice: Seq<DiceState>, target: Option<DiceID>, pips: u32) -> Seq<
    DiceState,
> {
    match target {
        Some(target_id) => with_status(
            dice,
            target_id,
            Regeneration { heal_amount: pips, duration_left: REGENERATION_ROUNDS },
        ),
        None => dice,
    }
}

/// Whether `target` is what a selection among the wanted dice can return:
/// a die that may be targeted, or nothing where no die is wanted.
pub open spec fn selectable(
    dice: Seq<DiceState>,
    wanted: spec_fn(DiceState) -> bool,
    context: ResolutionContext,
    target: Option<DiceID>,
) -> bool {
    match target {
        Some(target_id) => may_target(dice, wanted, context.face, target_id),
        None => none_wanted(dice, wanted),
    }
}

/// Attacks an enemy for `pips` damage and returns the die that was hit.
/// Without a living enemy nothing happens.
pub fn attack(battle: &mut Battle, pips: u32, context: ResolutionContext) -> (target: Option<
    DiceID,
>)
    requires
        old(battle).wf(),
    ensures
        final(battle).wf(),
        selectable(old(battle)@, |d: DiceState| is_enemy(context, d), context, target),
        final(battle)@ == attacked(old(battle)@, target, pips),
{
    let target = select_enemy(battle, context);
    if let Some(target_id) = target {
        proof {
            lemma_target_lives(battle@, |d: DiceState| is_enemy(context, d), context, target_id);
        }
        let _ = damage(battle, target_id, pips);
    }
    target
}

/// Sets an enemy on fire with a burn of `pips` and returns the die that was
/// hit. Without pips or without a living enemy nothing happens.
pub fn fire(battle: &mut Battle, pips: u32, context: ResolutionContext) -> (target: Option<DiceID>)
    requires
        old(battle).wf(),
    ensures
        final(battle).wf(),
        pips == 0 ==> target is None,
        pips > 0 ==> selectable(old(battle)@, |d: DiceState| is_enemy(context, d), context, target),
        final(battle)@ == fired_at(old(battle)@, target, pips),
{
    if pips == 0 {
        return None;
    }
    let target = select_enemy(battle, context);
    if let Some(target_id) = target {
        proof {
            lemma_target_lives(battle@, |d: DiceState| is_enemy(context, d), context, target_id);
        }
        let _ = apply_status(battle, target_id, Burning { intensity: pips });
    }
    target
}

/// Gives an ally a regeneration of `pips` per round and returns the die
/// that received it. Without pips or without a living ally nothing happens.
pub fn regenerate(battle: &mut Battle, pips: u32, context: ResolutionContext) -> (target: Option<
    DiceID,
>)
    requires
        old(battle).wf(),
    ensures
        final(battle).wf(),
        pips == 0 ==> target is None,
        pips > 0 ==> selectable(old(battle)@, |d: DiceState| is_ally(context, d), context, target),
        final(battle)@ == regenerated(old(battle)@, target, pips),
{
    if pips == 0 {
        return None;
    }
    let target = select_ally(battle, context);
    if let Some(target_id) = target {
        proof {
            lemma_target_lives(battle@, |d: DiceState| is_ally(context, d), context, target_id);
        }
        let _ = apply_status(
            battle,
            target_id,
            Regeneration { heal_amount: pips, duration_left: REGENERATION_ROUNDS },
        );
    }
    target
}

/// Puts a `Double` on the acting die itself.
pub fn double(battle: &mut Battle, context: ResolutionContext) -> (result: Result<(), AccessError>)
    requires
        old(battle).wf(),
    ensures
        final(battle).wf(),
        result is Ok <==> has_living(old(battle)@, context.dice_id),
        final(battle)@ == with_status(old(battle)@, context.dice_id, Double),
{
    let result = apply_status(battle, context.dice_id, Double);
    proof {
        if result is Err {
            assert(old(battle)@ =~= with_status(old(battle)@, context.dice_id, Double));
        }
    }
    result
}

/// A die that may be targeted is a living die, as long as only living dice
/// are wanted.
pub proof fn lemma_target_lives(
    dice: Seq<DiceState>,
    wanted: spec_fn(DiceState) -> bool,
    context: ResolutionContext,
    target_id: DiceID,
)
    requires
        may_target(dice, wanted, context.face, target_id),
        forall|d: DiceState| wanted(d) ==> d.alive(),
    ensures
        has_living(dice, target_id),
{
    let i = choose|i: int|
        0 <= i < dice.len() && wanted(#[trigger] dice[i]) && dice[i].dice.id == target_id && (
        context.face.background == FaceBackground::Cruel ==> crate::select_targets::weakest(
            dice,
            wanted,
            dice[i].health.current,
        ));
    assert(dice[i].alive());
}

/// Whether `target` is a choice that one resolution of the face can make on
/// these dice: an enemy for an attack or a fire, an ally for a
/// regeneration, nothing for the other actions and for an action without
/// pips that needs them to take effect.
pub open spec fn valid_choice(
    dice: Seq<DiceState>,
    context: ResolutionContext,
    target: Option<DiceID>,
) -> bool {
    let asked = double_spent(dice, context.dice_id);
    let pips = pips_counted(dice, context.dice_id, context.face.pips->0);
    match context.face.action {
        Action::Attack => selectable(asked, |d: DiceState| is_enemy(context, d), context, target),
        Action::Fire => if pips == 0 {
            target is None
        } else {
            selectable(asked, |d: DiceState| is_enemy(context, d), context, target)
        },
        Action::Regenerate => if pips == 0 {
            target is None
        } else {
            selectable(asked, |d: DiceState| is_ally(context, d), context, target)
        },
        Action::Empty | Action::Defend | Action::Fiery => target is None,
    }
}

/// The dice after the face has been resolved once with `target` as the
/// choice of its target.
pub open spec fn acted(
    dice: Seq<DiceState>,
    context: ResolutionContext,
    target: Option<DiceID>,
) -> Seq<DiceState> {
    let asked = double_spent(dice, context.dice_id);
    let pips = pips_counted(dice, context.dice_id, context.face.pips->0);
    match context.face.action {
        Action::Empty | Action::Fiery => dice,
        Action::Attack => attacked(asked, target, pips),
        Action::Defend => with_status(dice, context.dice_id, Double),
        Action::Regenerate => regenerated(asked, target, pips),
        Action::Fire => fired_at(asked, target, pips),
    }
}

/// The dice after the face has been resolved once for each of `targets`,
/// in their order.
pub open spec fn played(
    dice: Seq<DiceState>,
    context: ResolutionContext,
    targets: Seq<Option<DiceID>>,
) -> Seq<DiceState>
    decreases targets.len(),
{
    if targets.len() == 0 {
        dice
    } else {
        acted(played(dice, context, targets.drop_last()), context, targets.last())
    }
}

/// Whether each of `targets` is a valid choice on the dice as the
/// resolutions before it have left them.
pub open spec fn valid_choices(
    dice: Seq<DiceState>,
    context: ResolutionContext,
    targets: Seq<Option<DiceID>>,
) -> bool {
    forall|k: int|
        0 <= k < targets.len() ==> valid_choice(
            played(dice, context, targets.take(k)),
            context,
            #[trigger] targets[k],
        )
}

/// Resolves the face once and returns the die it was aimed at, if any.
/// Only a `Defend` of a die that is not alive fails.
pub fn resolve_once(battle: &mut Battle, context: ResolutionContext) -> (result: Result<
    Option<DiceID>,
    AccessError,
>)
    requires
        old(battle).wf(),
        context.face.wf(),
    ensures
        final(battle).wf(),
        result is Err <==> context.face.action == Action::Defend && !has_living(
            old(battle)@,
            context.dice_id,
        ),
        result is Err ==> final(battle)@ == old(battle)@,
        result matches Ok(target) ==> valid_choice(old(battle)@, context, target)
            && final(battle)@ == acted(old(battle)@, context, target),
{
    let dice_id = context.dice_id;
    match context.face.action {
        Action::Empty => Ok(None),
        Action::Attack => {
            let pips = get_pips(battle, dice_id, context.face.pips.unwrap());
            Ok(attack(battle, pips, context))
        },
        Action::Defend => {
            match double(battle, context) {
                Ok(()) => Ok(None),
                Err(e) => {
                    assert(battle@ =~= old(battle)@);
                    Err(e)
                },
            }
        },
        Action::Regenerate => {
            let pips = get_pips(battle, dice_id, context.face.pips.unwrap());
            Ok(regenerate(battle, pips, context))
        },
        Action::Fire => {
            let pips = get_pips(battle, dice_id, context.face.pips.unwrap());
            Ok(fire(battle, pips, context))
        },
        Action::Fiery => Ok(None),
    }
}

/// Resolves a face for its die: once, or twice in a row under a `Double`
/// background. Returns the die that each resolution was aimed at.
pub fn resolve(battle: &mut Battle, context: ResolutionContext) -> (result: Result<
    Vec<Option<DiceID>>,
    AccessError,
>)
    requires
        old(battle).wf(),
        context.face.wf(),
    ensures
        final(battle).wf(),
        result is Err <==> context.face.action == Action::Defend && !has_living(
            old(battle)@,
            context.dice_id,
        ),
        result is Err ==> final(battle)@ == old(battle)@,
        result matches Ok(targets) ==> targets@.len() == context.face.background.repeat_count()
            && valid_choices(old(battle)@, context, targets@) && final(battle)@ == played(
            old(battle)@,
            context,
            targets@,
        ),
{
    let repeat = context.face.background.repeats();
    let mut targets: Vec<Option<DiceID>> = Vec::new();
    let mut done: u32 = 0;
    while done < repeat
        invariant
            battle.wf(),
            context.face.wf(),
            done <= repeat,
            targets@.len() == done,
            valid_choices(old(battle)@, context, targets@),
            battle@ == played(old(battle)@, context, targets@),
            repeat >= 1,
            done > 0 && context.face.action == Action::Defend ==> has_living(
                battle@,
                context.dice_id,
            ) && has_living(old(battle)@, context.dice_id),
        decreases repeat - done,
    {
        let ghost before = targets@;
        let ghost dice_before = battle@;
        match resolve_once(battle, context) {
            Ok(target) => {
                targets.push(target);
                proof {
                    assert(targets@.drop_last() =~= before);
                    assert forall|k: int| 0 <= k < targets@.len() implies valid_choice(
                        played(old(battle)@, context, targets@.take(k)),
                        context,
                        #[trigger] targets@[k],
                    ) by {
                        if k < before.len() {
                            assert(targets@.take(k) =~= before.take(k));
                        } else {
                            assert(targets@.take(k) =~= before);
                        }
                    }
                    if context.face.action == Action::Defend {
                        lemma_status_keeps_living(dice_before, context.dice_id, Double);
                    }
                }
            },
            Err(e) => {
                return Err(e);
            },
        }
        done += 1;
    }
    Ok(targets)
}

impl FacePrototype {
    /// Resolves this face for the die named `dice_id`.
    pub fn resolve(self, battle: &mut Battle, dice_id: DiceID) -> (result: Result<
        Vec<Option<DiceID>>,
        AccessError,
    >)
        requires
            old(battle).wf(),
            self.wf(),
        ensures
            final(battle).wf(),
            result is Err <==> self.action == Action::Defend && !has_living(old(battle)@, dice_id),
            result is Err ==> final(battle)@ == old(battle)@,
            result matches Ok(targets) ==> ({
                let context = ResolutionContext { face: self, dice_id };
                &&& targets@.len() == self.background.repeat_count()
                &&& valid_choices(old(battle)@, context, targets@)
                &&& final(battle)@ == played(old(battle)@, context, targets@)
            }),
    {
        resolve(battle, ResolutionContext { face: self, dice_id })
    }
}

/// Applying a status leaves every die as alive and as named as it was.
pub proof fn lemma_status_keeps_living<S: crate::status::Status>(
    dice: Seq<DiceState>,
    dice_id: DiceID,
    status: S,
)
    requires
        has_living(dice, dice_id),
        forall|d: DiceState, slot: Option<S>|
            (#[trigger] S::put(d, slot)).dice == d.dice && S::put(d, slot).health == d.health,
    ensures
        has_living(with_status(dice, dice_id, status), dice_id),
{
    let i = choose|i: int|
        0 <= i < dice.len() && (#[trigger] dice[i]).dice.id == dice_id && dice[i].alive();
    let after = with_status(dice, dice_id, status);
    assert(after[i].dice.id == dice_id && after[i].alive());
}

/// A `Double` is spent by the first action that follows it: however often
/// it was applied, the next action counts twice its pips and the one after
/// counts them plainly again.
pub proof fn lemma_double_is_one_shot(dice: Seq<DiceState>, dice_id: DiceID, pips: u32)
    requires
        valid_dice(dice),
        has_living(dice, dice_id),
    ensures
        ({
            let once = with_status(dice, dice_id, Double);
            let twice = with_status(once, dice_id, Double);
            &&& pips_counted(once, dice_id, pips) == doubled(pips)
            &&& pips_counted(twice, dice_id, pips) == doubled(pips)
            &&& pips_counted(double_spent(twice, dice_id), dice_id, pips) == pips
        }),
{
    let i = choose|i: int|
        0 <= i < dice.len() && (#[trigger] dice[i]).dice.id == dice_id && dice[i].alive();
    let once = with_status(dice, dice_id, Double);
    let twice = with_status(once, dice_id, Double);
    assert(once[i].dice.id == dice_id && once[i].alive() && once[i].double is Some);
    assert(twice[i].dice.id == dice_id && twice[i].alive() && twice[i].double is Some);
    let spent = double_spent(twice, dice_id);
    if has_double(spent, dice_id) {
        let j = choose|j: int|
            0 <= j < spent.len() && (#[trigger] spent[j]).dice.id == dice_id && spent[j].alive()
                && spent[j].double is Some;
        assert(twice[j].dice.id == dice_id);
    }
}

} // verus!
