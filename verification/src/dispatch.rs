//! The status engine: waking the statuses of one kind when their event is
//! raised.
//!
//! Who takes part is decided on the dice as they stand when the event is
//! raised. Every participant in turn lets its status act, decays it, drops
//! it once it has expired, and hands the event on to the next participant.

use crate::battle::Battle;
use crate::dice_instance::DiceState;
use crate::events::StartRound;
use crate::status::{decay_slot, fired, Burning, Regeneration, Status};
use vstd::prelude::*;

verus! {

/// Whether the die takes part when `event` wakes the statuses of kind `S`:
/// it is alive, carries such a status, and the status wants the event.
pub open spec fn participates<S: Status>(die: DiceState, event: S::TriggerEvent) -> bool {
    &&& die.alive()
    &&& S::slot(die) is Some
    &&& S::slot(die)->0.triggers(die.dice, event)
}

/// The die after `event` has passed over it: a participant's status acts
/// and, if the die is still alive, decays; any other die stays as it is.
pub open spec fn ticked<S: Status>(die: DiceState, event: S::TriggerEvent) -> DiceState {
    if participates::<S>(die, event) {
        let acted = S::slot(die)->0.resolved(die, event);
        if acted.alive() {
            S::put(acted, fired(S::slot(acted)))
        } else {
            acted
        }
    } else {
        die
    }
}

/// The event after the participants among the first `count` dice have
/// handed it on, each in its turn.
pub open spec fn handed_on<S: Status>(
    dice: Seq<DiceState>,
    count: int,
    event: S::TriggerEvent,
) -> S::TriggerEvent
    decreases count,
{
    if count <= 0 {
        event
    } else {
        let before = handed_on::<S>(dice, count - 1, event);
        let die = dice[count - 1];
        if participates::<S>(die, event) {
            S::slot(die)->0.updated_event(die.dice.id, before)
        } else {
            before
        }
    }
}

/// A die that takes part in a dispatch, as it was found when the event was
/// raised: its place among the dice and a copy of its status.
pub struct Participant<S: Status> {
    pub place: usize,
    pub status: S,
}

/// Whether the list holds the participants among the first `count` dice, in
/// the order of the dice, each with the status it carries.
pub open spec fn is_snapshot<S: Status>(
    dice: Seq<DiceState>,
    event: S::TriggerEvent,
    count: int,
    list: Seq<Participant<S>>,
) -> bool {
    &&& forall|p: int|
        0 <= p < list.len() ==> {
            &&& (#[trigger] list[p]).place < count
            &&& list[p].place < dice.len()
            &&& participates::<S>(dice[list[p].place as int], event)
            &&& S::slot(dice[list[p].place as int]) == Some(list[p].status)
        }
    &&& forall|p: int, q: int| 0 <= p < q < list.len() ==> list[p].place < list[q].place
    &&& forall|j: int|
        0 <= j < count && j < dice.len() && participates::<S>(#[trigger] dice[j], event)
            ==> exists|p: int| 0 <= p < list.len() && (#[trigger] list[p]).place == j
}

/// Notes who takes part when `event` is raised for the statuses of kind `S`:
/// the living dice that carry such a status which wants the event.
pub fn snapshot<S: Status>(battle: &Battle, event: S::TriggerEvent) -> (participants: Vec<
    Participant<S>,
>)
    ensures
        is_snapshot(battle@, event, battle@.len() as int, participants@),
{
    let mut participants: Vec<Participant<S>> = Vec::new();
    let mut i: usize = 0;
    while i < battle.len()
        invariant
            i <= battle@.len(),
            is_snapshot(battle@, event, i as int, participants@),
        decreases battle@.len() - i,
    {
        let die = battle.at(i);
        let ghost before = participants@;
        if die.is_alive() {
            if let Some(status) = S::get(&die) {
                if status.trigger_condition(&die.dice, event) {
                    participants.push(Participant { place: i, status });
                    assert(participants@[before.len() as int].place == i);
                }
            }
        }
        proof {
            assert forall|j: int|
                0 <= j < i + 1 && j < battle@.len() && participates::<S>(
                    #[trigger] battle@[j],
                    event,
                ) implies exists|p: int|
                0 <= p < participants@.len() && (#[trigger] participants@[p]).place == j by {
                if j < i {
                    let p = choose|p: int| 0 <= p < before.len() && (#[trigger] before[p]).place == j;
                    assert(participants@[p].place == j);
                }
            }
        }
        i += 1;
    }
    participants
}

/// The place up to which the dice have been dealt with once the first
/// `done` participants have had their turn.
pub open spec fn dealt_with<S: Status>(list: Seq<Participant<S>>, done: int, len: nat) -> int {
    if done < list.len() {
        list[done].place as int
    } else {
        len as int
    }
}

/// Dice that do not take part leave the event as it is.
proof fn lemma_handed_on_skips<S: Status>(
    dice: Seq<DiceState>,
    event: S::TriggerEvent,
    from: int,
    to: int,
)
    requires
        0 <= from <= to <= dice.len(),
        forall|j: int| from <= j < to ==> !participates::<S>(#[trigger] dice[j], event),
    ensures
        handed_on::<S>(dice, to, event) == handed_on::<S>(dice, from, event),
    decreases to - from,
{
    if from < to {
        lemma_handed_on_skips::<S>(dice, event, from, to - 1);
    }
}

/// Between two neighbours of a snapshot, and after its last entry, no die
/// takes part.
proof fn lemma_gap<S: Status>(
    dice: Seq<DiceState>,
    event: S::TriggerEvent,
    list: Seq<Participant<S>>,
    done: int,
    j: int,
)
    requires
        is_snapshot(dice, event, dice.len() as int, list),
        0 <= done <= list.len(),
        (if done == 0 {
            0
        } else {
            list[done - 1].place + 1
        }) <= j < dealt_with(list, done, dice.len()),
    ensures
        !participates::<S>(dice[j], event),
{
    if participates::<S>(dice[j], event) {
        let p = choose|p: int| 0 <= p < list.len() && (#[trigger] list[p]).place == j;
        if p < done {
            if p < done - 1 {
                assert(list[p].place < list[done - 1].place);
            }
        } else if p > done {
            assert(list[done].place < list[p].place);
        }
    }
}

/// Raises `event` for the statuses of kind `S` and returns the event as the
/// last participant has left it.
///
/// The participants are noted before any of them acts. Each in its turn
/// lets its status act on its die, then decays the status that the die
/// carries and drops it if it has expired, then hands the event on.
pub fn dispatch<S: Status>(battle: &mut Battle, event: S::TriggerEvent) -> (new_event:
    S::TriggerEvent)
    requires
        old(battle).wf(),
    ensures
        final(battle).wf(),
        final(battle)@ == old(battle)@.map_values(|d: DiceState| ticked::<S>(d, event)),
        new_event == handed_on::<S>(old(battle)@, old(battle)@.len() as int, event),
{
    let ghost before = battle@;
    let participants = snapshot::<S>(battle, event);
    let mut new_event = event;
    let mut done: usize = 0;
    proof {
        assert forall|j: int| 0 <= j < dealt_with(participants@, 0, before.len()) implies !participates::<S>(
            #[trigger] before[j],
            event,
        ) by {
            lemma_gap::<S>(before, event, participants@, 0, j);
        }
        lemma_handed_on_skips::<S>(before, event, 0, dealt_with(participants@, 0, before.len()));
    }
    while done < participants.len()
        invariant
            battle.wf(),
            done <= participants@.len(),
            battle@.len() == before.len(),
            is_snapshot(before, event, before.len() as int, participants@),
            forall|j: int|
                0 <= j < dealt_with(participants@, done as int, before.len())
                    ==> #[trigger] battle@[j] == ticked::<S>(before[j], event),
            forall|j: int|
                dealt_with(participants@, done as int, before.len()) <= j < before.len()
                    ==> #[trigger] battle@[j] == before[j],
            new_event == handed_on::<S>(
                before,
                dealt_with(participants@, done as int, before.len()),
                event,
            ),
        decreases participants@.len() - done,
    {
        let place = participants[done].place;
        let status = participants[done].status;
        let mut die = battle.at(place);
        status.resolve_status(&mut die, event);
        if die.is_alive() {
            let mut slot = S::get(&die);
            decay_slot(&mut slot);
            S::set(&mut die, slot);
        }
        battle.replace(place, die);
        new_event = status.update_event(die.dice.id, new_event);
        proof {
            let next = dealt_with(participants@, done + 1, before.len());
            assert(place < next) by {
                if done + 1 < participants@.len() {
                    assert(participants@[done as int].place < participants@[done + 1].place);
                }
            }
            assert forall|j: int| place < j < next implies !participates::<S>(
                #[trigger] before[j],
                event,
            ) by {
                lemma_gap::<S>(before, event, participants@, done + 1, j);
            }
            lemma_handed_on_skips::<S>(before, event, place + 1, next);
        }
        done += 1;
    }
    assert(battle@ =~= before.map_values(|d: DiceState| ticked::<S>(d, event)));
    new_event
}

/// The die after a round has started: its burn has dealt its damage and
/// decayed, then its regeneration has healed and decayed.
pub open spec fn round_started(die: DiceState, event: StartRound) -> DiceState {
    ticked::<Regeneration>(ticked::<Burning>(die, event), event)
}

/// Raises the start of a round: first every burn acts, then every
/// regeneration.
pub fn trigger_start_round(battle: &mut Battle, event: StartRound)
    requires
        old(battle).wf(),
    ensures
        final(battle).wf(),
        final(battle)@ == old(battle)@.map_values(|d: DiceState| round_started(d, event)),
{
    dispatch::<Burning>(battle, event);
    dispatch::<Regeneration>(battle, event);
    assert(battle@ =~= old(battle)@.map_values(|d: DiceState| round_started(d, event)));
}

/// A burn deals its intensity as damage when the round starts. If the die
/// lives on, the burn is one lower afterwards, and gone once it would be
/// zero.
pub proof fn lemma_burning_tick(die: DiceState, intensity: u32, event: StartRound)
    requires
        die.alive(),
        die.burning == Some(Burning { intensity }),
    ensures
        ticked::<Burning>(die, event).health == die.health.damaged(intensity),
        ticked::<Burning>(die, event).alive() ==> ticked::<Burning>(die, event).burning == if intensity
            > 1 {
            Some(Burning { intensity: (intensity - 1) as u32 })
        } else {
            None
        },
        !ticked::<Burning>(die, event).alive() ==> ticked::<Burning>(die, event).burning is None,
{
}

/// A regeneration heals its amount when the round starts; it lasts one
/// round less afterwards, and is gone once no round is left.
pub proof fn lemma_regeneration_tick(
    die: DiceState,
    heal_amount: u32,
    duration_left: u32,
    event: StartRound,
)
    requires
        die.wf(),
        die.alive(),
        die.regeneration == Some(Regeneration { heal_amount, duration_left }),
    ensures
        ticked::<Regeneration>(die, event).health == die.health.healed(heal_amount),
        ticked::<Regeneration>(die, event).regeneration == if duration_left > 1 {
            Some(Regeneration { heal_amount, duration_left: (duration_left - 1) as u32 })
        } else {
            None
        },
{
}

/// Whatever statuses act, a well-formed die stays well formed: its health
/// never leaves the range from zero to its maximum.
pub proof fn lemma_round_start_keeps_health_bounds(die: DiceState, event: StartRound)
    requires
        die.wf(),
    ensures
        round_started(die, event).wf(),
        round_started(die, event).health.max == die.health.max,
        round_started(die, event).health.current <= die.health.max,
{
}

} // verus!
