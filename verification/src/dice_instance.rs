//! Dice as they stand in a battle: identity, row position and health.

use crate::dice_template::DiceTemplate;
use crate::face::FacePrototype;
use crate::status::{Burning, Double, Regeneration};
use vstd::prelude::*;

verus! {

/// Names a die for as long as the battle lasts.
#[derive(Clone, Copy, Debug, PartialEq, Eq, Hash, Structural)]
pub struct DiceID {
    pub team_id: usize,
    pub dice_id: usize,
}

/// What a die carries of itself: its name and its place in its team's row.
#[derive(Clone, Copy, Debug, PartialEq, Eq, Structural)]
pub struct Dice {
    pub id: DiceID,
    pub row_position: usize,
}

impl Dice {
    /// A die that stands in its row where it was spawned.
    pub fn new(dice_id: DiceID) -> (dice: Dice)
        ensures
            dice == (Dice { id: dice_id, row_position: dice_id.dice_id }),
    {
        Dice { id: dice_id, row_position: dice_id.dice_id }
    }

    pub fn id(&self) -> (id: DiceID)
        ensures
            id == self.id,
    {
        self.id
    }

    pub fn row_position(&self) -> (row_position: usize)
        ensures
            row_position == self.row_position,
    {
        self.row_position
    }

    pub fn set_id(&mut self, id: DiceID)
        ensures
            *final(self) == (Dice { id, row_position: old(self).row_position }),
    {
        self.id = id;
    }

    pub fn set_row_position(&mut self, row_position: usize)
        ensures
            *final(self) == (Dice { id: old(self).id, row_position }),
    {
        self.row_position = row_position;
    }
}

/// Hit points of a die. A die whose `current` is zero is dead.
#[derive(Clone, Copy, Debug, PartialEq, Eq, Structural)]
pub struct Health {
    pub max: u32,
    pub current: u32,
}

impl Health {
    /// The health invariant: `current` never exceeds `max`.
    pub open spec fn wf(self) -> bool {
        self.current <= self.max
    }

    pub open spec fn alive(self) -> bool {
        self.current > 0
    }

    /// The health after `amount` points of damage: subtraction that stops at zero.
    pub open spec fn damaged(self, amount: u32) -> Health {
        Health {
            max: self.max,
            current: if self.current > amount {
                (self.current - amount) as u32
            } else {
                0
            },
        }
    }

    /// The health after `amount` points of healing: addition that stops at `max`.
    pub open spec fn healed(self, amount: u32) -> Health {
        Health {
            max: self.max,
            current: if self.current + amount < self.max {
                (self.current + amount) as u32
            } else {
                self.max
            },
        }
    }

    pub fn new(hp: u32) -> (health: Health)
        ensures
            health == (Health { max: hp, current: hp }),
            health.wf(),
    {
        Health { max: hp, current: hp }
    }

    pub fn is_alive(&self) -> (b: bool)
        ensures
            b == self.alive(),
    {
        self.current > 0
    }

    /// Takes `amount` hit points away and says whether the die is dead afterwards.
    pub fn damage(&mut self, amount: u32) -> (died: bool)
        ensures
            *final(self) == old(self).damaged(amount),
            died == !final(self).alive(),
            old(self).wf() ==> final(self).wf(),
    {
        self.current = self.current.saturating_sub(amount);
        self.current == 0
    }

    /// Gives `amount` hit points back, up to `max`.
    pub fn heal(&mut self, amount: u32)
        ensures
            *final(self) == old(self).healed(amount),
            final(self).wf(),
    {
        let raised = self.current.saturating_add(amount);
        self.current = if raised < self.max {
            raised
        } else {
            self.max
        };
    }
}

/// One die in a battle, with everything that changes while the battle runs.
#[derive(Clone, Copy, Debug, PartialEq, Eq)]
pub struct DiceState {
    pub dice: Dice,
    pub health: Health,
    pub faces: [FacePrototype; 6],
    /// Where along the table the die has come to rest.
    pub x: i64,
    /// Index of the face the die has last landed on.
    pub face_up: usize,
    pub burning: Option<Burning>,
    pub regeneration: Option<Regeneration>,
    pub double: Option<Double>,
}

impl DiceState {
    pub open spec fn alive(self) -> bool {
        self.health.alive()
    }

    /// Health within its bounds, a face that exists lying up, and pips on
    /// every face that reads them.
    pub open spec fn wf(self) -> bool {
        &&& self.health.wf()
        &&& self.face_up < 6
        &&& forall|k: int| 0 <= k < 6 ==> (#[trigger] self.faces[k]).wf()
    }

    /// The die as it enters a battle: full health, first face up, no status.
    pub open spec fn spawned(template: DiceTemplate, id: DiceID) -> DiceState {
        DiceState {
            dice: Dice { id, row_position: id.dice_id },
            health: Health { max: template.hp, current: template.hp },
            faces: template.faces,
            x: 0,
            face_up: 0,
            burning: None,
            regeneration: None,
            double: None,
        }
    }

    /// The face that lies up.
    pub open spec fn landed(self) -> FacePrototype {
        self.faces[self.face_up as int]
    }

    /// The die after `amount` points of damage. A die that this kills loses
    /// its statuses with its life.
    pub open spec fn hit(self, amount: u32) -> DiceState {
        if self.health.damaged(amount).alive() {
            DiceState { health: self.health.damaged(amount), ..self }
        } else {
            DiceState {
                health: self.health.damaged(amount),
                burning: None,
                regeneration: None,
                double: None,
                ..self
            }
        }
    }

    /// The die after `amount` points of healing.
    pub open spec fn mended(self, amount: u32) -> DiceState {
        DiceState { health: self.health.healed(amount), ..self }
    }

    pub fn spawn(template: &DiceTemplate, id: DiceID) -> (die: DiceState)
        ensures
            die == DiceState::spawned(*template, id),
    {
        DiceState {
            dice: Dice::new(id),
            health: Health::new(template.hp),
            faces: template.faces,
            x: 0,
            face_up: 0,
            burning: None,
            regeneration: None,
            double: None,
        }
    }

    pub fn is_alive(&self) -> (b: bool)
        ensures
            b == self.alive(),
    {
        self.health.is_alive()
    }

    /// Takes `amount` hit points away and says whether that killed the die.
    pub fn take_damage(&mut self, amount: u32) -> (died: bool)
        ensures
            *final(self) == old(self).hit(amount),
            died == !final(self).alive(),
            old(self).wf() ==> final(self).wf(),
    {
        let died = self.health.damage(amount);
        if died {
            self.burning = None;
            self.regeneration = None;
            self.double = None;
        }
        died
    }

    /// Gives `amount` hit points back, up to the die's maximum.
    pub fn mend(&mut self, amount: u32)
        ensures
            *final(self) == old(self).mended(amount),
            old(self).wf() ==> final(self).wf(),
    {
        self.health.heal(amount);
    }
}

/// Damage and healing keep the health between zero and its maximum, and
/// never move the maximum.
pub proof fn lemma_health_stays_in_bounds(health: Health, amount: u32)
    requires
        health.wf(),
    ensures
        health.damaged(amount).wf(),
        health.healed(amount).wf(),
        health.damaged(amount).max == health.max,
        health.healed(amount).max == health.max,
        health.damaged(amount).current <= health.current,
        health.healed(amount).current >= health.current,
{
}

/// A die that takes damage or is healed stays well formed.
pub proof fn lemma_die_stays_well_formed(die: DiceState, amount: u32)
    requires
        die.wf(),
    ensures
        die.hit(amount).wf(),
        die.mended(amount).wf(),
{
}

} // verus!
