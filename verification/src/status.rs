//! Statuses: timed modifiers that sit on a single die.
//!
//! A die carries at most one status of each kind. A second application is
//! merged into the first by [`Status::combine`]; every time the status fires
//! it decays by [`Status::update`] and leaves the die when that reports expiry.

use crate::dice_instance::{Dice, DiceID, DiceState};
use crate::events::{GetPips, StartRound};
use vstd::prelude::*;

verus! {

/// What a status kind has to say for itself: which event wakes it, what it
/// does to its die then, how it decays and how two applications merge.
pub trait Status: Copy + Sized {
    /// The event that the status listens for.
    type TriggerEvent: Copy;

    /// The status of this kind that a die carries.
    spec fn slot(die: DiceState) -> Option<Self>;

    /// The die with its status of this kind replaced.
    spec fn put(die: DiceState, slot: Option<Self>) -> DiceState;

    /// Whether the status wants to act on this event.
    spec fn triggers(self, dice: Dice, event: Self::TriggerEvent) -> bool;

    /// The die after the status has acted on it.
    spec fn resolved(self, die: DiceState, event: Self::TriggerEvent) -> DiceState;

    /// The event as the status hands it on.
    spec fn updated_event(self, dice_id: DiceID, event: Self::TriggerEvent) -> Self::TriggerEvent;

    /// The status after one decay step.
    spec fn decayed(self) -> Self;

    /// Whether the decay step uses the status up.
    spec fn expires(self) -> bool;

    /// The single status that stands for `self` followed by `other`.
    spec fn combined(self, other: Self) -> Self;

    /// The number shown beside the status, where it has one.
    spec fn shown_intensity(self) -> Option<u32>;

    /// Decays the status by one step and says whether it is to be removed.
    fn update(&mut self) -> (expired: bool)
        ensures
            *final(self) == old(self).decayed(),
            expired == old(self).expires(),
    ;

    /// Merges a fresh application of the same kind into this one.
    fn combine(self, other: Self) -> (merged: Self)
        ensures
            merged == self.combined(other),
    ;

    fn intensity(&self) -> (shown: Option<u32>)
        ensures
            shown == self.shown_intensity(),
    ;

    /// Reads the status of this kind off a die.
    fn get(die: &DiceState) -> (slot: Option<Self>)
        ensures
            slot == Self::slot(*die),
    ;

    /// Replaces the status of this kind on a die and leaves the rest of the
    /// die alone.
    fn set(die: &mut DiceState, slot: Option<Self>)
        ensures
            *final(die) == Self::put(*old(die), slot),
            Self::slot(*final(die)) == slot,
            final(die).dice == old(die).dice,
            final(die).health == old(die).health,
            final(die).faces == old(die).faces,
            final(die).face_up == old(die).face_up,
    ;

    fn trigger_condition(&self, dice: &Dice, event: Self::TriggerEvent) -> (wanted: bool)
        ensures
            wanted == self.triggers(*dice, event),
    ;

    /// Lets the status act on the die that carries it. The die keeps its
    /// name, its faces and the bounds of its health.
    fn resolve_status(&self, die: &mut DiceState, event: Self::TriggerEvent)
        ensures
            *final(die) == self.resolved(*old(die), event),
            final(die).dice == old(die).dice,
            final(die).faces == old(die).faces,
            final(die).face_up == old(die).face_up,
            old(die).wf() ==> final(die).wf(),
    ;

    fn update_event(&self, dice_id: DiceID, event: Self::TriggerEvent) -> (handed_on:
        Self::TriggerEvent)
        ensures
            handed_on == self.updated_event(dice_id, event),
    ;

    /// What the status does, in words for a tooltip.
    fn description() -> &'static str;
}

/// The sum of two counters, held at the largest `u32` where it would pass it.
pub open spec fn capped_sum(a: u32, b: u32) -> u32 {
    if a + b <= u32::MAX {
        (a + b) as u32
    } else {
        u32::MAX
    }
}

/// Twice the pips, held at the largest `u32` where that would pass it.
pub open spec fn doubled(pips: u32) -> u32 {
    if 2 * pips <= u32::MAX {
        (2 * pips) as u32
    } else {
        u32::MAX
    }
}

/// One less than the counter, held at zero.
pub open spec fn one_less(a: u32) -> u32 {
    if a > 0 {
        (a - 1) as u32
    } else {
        0
    }
}

/// Deals `intensity` damage at the start of a round, then burns one lower.
#[derive(Clone, Copy, Debug, PartialEq, Eq, Structural)]
pub struct Burning {
    pub intensity: u32,
}

impl Status for Burning {
    type TriggerEvent = StartRound;

    open spec fn slot(die: DiceState) -> Option<Burning> {
        die.burning
    }

    open spec fn put(die: DiceState, slot: Option<Burning>) -> DiceState {
        DiceState { burning: slot, ..die }
    }

    open spec fn triggers(self, dice: Dice, event: StartRound) -> bool {
        true
    }

    open spec fn resolved(self, die: DiceState, event: StartRound) -> DiceState {
        die.hit(self.intensity)
    }

    open spec fn updated_event(self, dice_id: DiceID, event: StartRound) -> StartRound {
        event
    }

    fn get(die: &DiceState) -> (slot: Option<Burning>) {
        die.burning
    }

    fn set(die: &mut DiceState, slot: Option<Burning>) {
        die.burning = slot;
    }

    fn trigger_condition(&self, dice: &Dice, event: StartRound) -> (wanted: bool) {
        true
    }

    fn resolve_status(&self, die: &mut DiceState, event: StartRound) {
        die.take_damage(self.intensity);
    }

    fn update_event(&self, dice_id: DiceID, event: StartRound) -> (handed_on: StartRound) {
        event
    }

    fn description() -> (text: &'static str)
        ensures
            text@ == "Deals damage at the start of a turn and decreases intensity"@,
    {
        "Deals damage at the start of a turn and decreases intensity"
    }

    open spec fn decayed(self) -> Burning {
        Burning { intensity: one_less(self.intensity) }
    }

    open spec fn expires(self) -> bool {
        self.intensity <= 1
    }

    open spec fn combined(self, other: Burning) -> Burning {
        Burning { intensity: capped_sum(self.intensity, other.intensity) }
    }

    open spec fn shown_intensity(self) -> Option<u32> {
        Some(self.intensity)
    }

    fn update(&mut self) -> (expired: bool) {
        self.intensity = self.intensity.saturating_sub(1);
        self.intensity == 0
    }

    fn combine(self, other: Burning) -> (merged: Burning) {
        Burning { intensity: self.intensity.saturating_add(other.intensity) }
    }

    fn intensity(&self) -> (shown: Option<u32>) {
        Some(self.intensity)
    }
}

/// Heals `heal_amount` at the start of a round, for `duration_left` rounds.
#[derive(Clone, Copy, Debug, PartialEq, Eq, Structural)]
pub struct Regeneration {
    pub heal_amount: u32,
    pub duration_left: u32,
}

impl Status for Regeneration {
    type TriggerEvent = StartRound;

    open spec fn slot(die: DiceState) -> Option<Regeneration> {
        die.regeneration
    }

    open spec fn put(die: DiceState, slot: Option<Regeneration>) -> DiceState {
        DiceState { regeneration: slot, ..die }
    }

    open spec fn triggers(self, dice: Dice, event: StartRound) -> bool {
        true
    }

    open spec fn resolved(self, die: DiceState, event: StartRound) -> DiceState {
        die.mended(self.heal_amount)
    }

    open spec fn updated_event(self, dice_id: DiceID, event: StartRound) -> StartRound {
        event
    }

    fn get(die: &DiceState) -> (slot: Option<Regeneration>) {
        die.regeneration
    }

    fn set(die: &mut DiceState, slot: Option<Regeneration>) {
        die.regeneration = slot;
    }

    fn trigger_condition(&self, dice: &Dice, event: StartRound) -> (wanted: bool) {
        true
    }

    fn resolve_status(&self, die: &mut DiceState, event: StartRound) {
        die.mend(self.heal_amount);
    }

    fn update_event(&self, dice_id: DiceID, event: StartRound) -> (handed_on: StartRound) {
        event
    }

    fn description() -> (text: &'static str)
        ensures
            text@ == "Heals at the start of a turn for a few turns"@,
    {
        "Heals at the start of a turn for a few turns"
    }

    open spec fn decayed(self) -> Regeneration {
        Regeneration { heal_amount: self.heal_amount, duration_left: one_less(self.duration_left) }
    }

    open spec fn expires(self) -> bool {
        self.duration_left <= 1
    }

    open spec fn combined(self, other: Regeneration) -> Regeneration {
        Regeneration {
            heal_amount: capped_sum(self.heal_amount, other.heal_amount),
            duration_left: if self.duration_left >= other.duration_left {
                self.duration_left
            } else {
                other.duration_left
            },
        }
    }

    open spec fn shown_intensity(self) -> Option<u32> {
        Some(self.heal_amount)
    }

    fn update(&mut self) -> (expired: bool) {
        self.duration_left = self.duration_left.saturating_sub(1);
        self.duration_left == 0
    }

    fn combine(self, other: Regeneration) -> (merged: Regeneration) {
        Regeneration {
            heal_amount: self.heal_amount.saturating_add(other.heal_amount),
            duration_left: if self.duration_left >= other.duration_left {
                self.duration_left
            } else {
                other.duration_left
            },
        }
    }

    fn intensity(&self) -> (shown: Option<u32>) {
        Some(self.heal_amount)
    }
}

/// Doubles the pips of the die's next action, once.
#[derive(Clone, Copy, Debug, PartialEq, Eq, Structural)]
pub struct Double;

impl Status for Double {
    type TriggerEvent = GetPips;

    open spec fn slot(die: DiceState) -> Option<Double> {
        die.double
    }

    open spec fn put(die: DiceState, slot: Option<Double>) -> DiceState {
        DiceState { double: slot, ..die }
    }

    open spec fn triggers(self, dice: Dice, event: GetPips) -> bool {
        event.dice_id == dice.id
    }

    open spec fn resolved(self, die: DiceState, event: GetPips) -> DiceState {
        die
    }

    open spec fn updated_event(self, dice_id: DiceID, event: GetPips) -> GetPips {
        GetPips { dice_id: event.dice_id, pips: doubled(event.pips) }
    }

    fn get(die: &DiceState) -> (slot: Option<Double>) {
        die.double
    }

    fn set(die: &mut DiceState, slot: Option<Double>) {
        die.double = slot;
    }

    fn trigger_condition(&self, dice: &Dice, event: GetPips) -> (wanted: bool) {
        event.dice_id == dice.id
    }

    fn resolve_status(&self, die: &mut DiceState, event: GetPips) {
    }

    fn update_event(&self, dice_id: DiceID, event: GetPips) -> (handed_on: GetPips) {
        GetPips { dice_id: event.dice_id, pips: event.pips.saturating_add(event.pips) }
    }

    fn description() -> (text: &'static str)
        ensures
            text@ == "Doubles the pips of the next action"@,
    {
        "Doubles the pips of the next action"
    }

    open spec fn decayed(self) -> Double {
        Double
    }

    open spec fn expires(self) -> bool {
        true
    }

    open spec fn combined(self, other: Double) -> Double {
        Double
    }

    open spec fn shown_intensity(self) -> Option<u32> {
        None
    }

    fn update(&mut self) -> (expired: bool) {
        true
    }

    fn combine(self, other: Double) -> (merged: Double) {
        Double
    }

    fn intensity(&self) -> (shown: Option<u32>) {
        None
    }
}

/// Puts a status into the slot of its kind: alone where the slot is empty,
/// merged into the status that is already there otherwise.
pub open spec fn applied<S: Status>(slot: Option<S>, status: S) -> Option<S> {
    match slot {
        Some(current) => Some(current.combined(status)),
        None => Some(status),
    }
}

/// The slot after the status in it has fired once.
pub open spec fn fired<S: Status>(slot: Option<S>) -> Option<S> {
    match slot {
        Some(current) => if current.expires() {
            None
        } else {
            Some(current.decayed())
        },
        None => None,
    }
}

/// Puts a status into the slot of its kind, merging with what is there.
pub fn apply_to_slot<S: Status>(slot: &mut Option<S>, status: S)
    ensures
        *final(slot) == applied(*old(slot), status),
{
    let merged = match *slot {
        Some(current) => current.combine(status),
        None => status,
    };
    *slot = Some(merged);
}

/// Decays the status in the slot and removes it once it has expired.
pub fn decay_slot<S: Status>(slot: &mut Option<S>)
    ensures
        *final(slot) == fired(*old(slot)),
{
    let after = match *slot {
        Some(current) => {
            let mut next = current;
            if next.update() {
                None
            } else {
                Some(next)
            }
        },
        None => None,
    };
    *slot = after;
}

/// Combining burns adds their intensities, in whatever order and grouping
/// the applications arrive.
pub proof fn lemma_burning_combine(a: Burning, b: Burning, c: Burning)
    ensures
        a.intensity + b.intensity <= u32::MAX ==> a.combined(b).intensity == a.intensity
            + b.intensity,
        a.combined(b) == b.combined(a),
        a.combined(b).combined(c) == a.combined(b.combined(c)),
{
}

/// Combining regenerations adds the heal amounts and keeps the longer
/// duration, in whatever order and grouping the applications arrive.
pub proof fn lemma_regeneration_combine(a: Regeneration, b: Regeneration, c: Regeneration)
    ensures
        a.heal_amount + b.heal_amount <= u32::MAX ==> a.combined(b).heal_amount == a.heal_amount
            + b.heal_amount,
        a.combined(b).duration_left >= a.duration_left,
        a.combined(b).duration_left >= b.duration_left,
        a.combined(b).duration_left == a.duration_left || a.combined(b).duration_left
            == b.duration_left,
        a.combined(b) == b.combined(a),
        a.combined(b).combined(c) == a.combined(b.combined(c)),
{
}

/// Applying a burn to a die that already burns leaves one burn whose
/// intensity is the sum of the two.
pub proof fn lemma_burning_reapplied(present: Burning, fresh: Burning)
    requires
        present.intensity + fresh.intensity <= u32::MAX,
    ensures
        applied(Some(present), fresh) == Some(
            Burning { intensity: (present.intensity + fresh.intensity) as u32 },
        ),
{
}

} // verus!
