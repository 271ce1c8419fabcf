//! The battle: every die of both teams, alive or dead.
//!
//! Dice keep their place for the whole battle. A die is dead when its health
//! has reached zero; dead dice are passed over by everything that acts on
//! the battle.

use crate::dice_instance::{DiceID, DiceState};
use crate::dice_template::DiceTemplate;
use vstd::prelude::*;

verus! {

/// No two dice carry the same name.
pub open spec fn distinct_ids(dice: Seq<DiceState>) -> bool {
    forall|i: int, j: int|
        0 <= i < dice.len() && 0 <= j < dice.len() && i != j ==> (#[trigger] dice[i]).dice.id != (
        #[trigger] dice[j]).dice.id
}

/// Every die is well formed.
pub open spec fn all_wf(dice: Seq<DiceState>) -> bool {
    forall|i: int| 0 <= i < dice.len() ==> (#[trigger] dice[i]).wf()
}

/// Dice that are well formed and carry distinct names.
pub open spec fn valid_dice(dice: Seq<DiceState>) -> bool {
    distinct_ids(dice) && all_wf(dice)
}

/// Whether some living die carries the name.
pub open spec fn has_living(dice: Seq<DiceState>, id: DiceID) -> bool {
    exists|i: int| 0 <= i < dice.len() && (#[trigger] dice[i]).dice.id == id && dice[i].alive()
}

/// Whether some living die belongs to the team.
pub open spec fn team_alive(dice: Seq<DiceState>, team_id: usize) -> bool {
    exists|i: int|
        0 <= i < dice.len() && (#[trigger] dice[i]).dice.id.team_id == team_id && dice[i].alive()
}

/// The dice that a team's templates are spawned as, in the templates' order.
pub open spec fn spawned_team(templates: Seq<DiceTemplate>, team_id: usize) -> Seq<DiceState> {
    Seq::new(
        templates.len(),
        |i: int| DiceState::spawned(templates[i], DiceID { team_id, dice_id: i as usize }),
    )
}

/// Every template of the team has pips on each face that reads them.
pub open spec fn templates_wf(templates: Seq<DiceTemplate>) -> bool {
    forall|i: int| 0 <= i < templates.len() ==> (#[trigger] templates[i]).wf()
}

/// Both teams' dice.
pub struct Battle {
    pub(crate) dice: Vec<DiceState>,
}

impl Battle {
    /// The dice of the battle, the first team's before the second's.
    pub open(crate) spec fn view(&self) -> Seq<DiceState> {
        self.dice@
    }

    /// The battle's invariant.
    pub open spec fn wf(&self) -> bool {
        valid_dice(self@)
    }

    /// Spawns both teams, the first as team 0 and the second as team 1.
    /// Templates with a face that lacks the pips its action reads are
    /// refused.
    pub fn new(team1: &Vec<DiceTemplate>, team2: &Vec<DiceTemplate>) -> (battle: Option<Battle>)
        ensures
            battle is Some <==> templates_wf(team1@) && templates_wf(team2@),
            battle is Some ==> battle->0.wf() && battle->0@ == spawned_team(team1@, 0)
                + spawned_team(team2@, 1),
    {
        let mut dice: Vec<DiceState> = Vec::new();
        let mut i: usize = 0;
        while i < team1.len()
            invariant
                i <= team1.len(),
                dice@ == spawned_team(team1@, 0).take(i as int),
                forall|j: int| 0 <= j < i ==> (#[trigger] team1@[j]).wf(),
            decreases team1.len() - i,
        {
            if !team1[i].is_well_formed() {
                return None;
            }
            dice.push(DiceState::spawn(&team1[i], DiceID { team_id: 0, dice_id: i }));
            i += 1;
            assert(dice@ =~= spawned_team(team1@, 0).take(i as int));
        }
        assert(dice@ =~= spawned_team(team1@, 0));
        let mut k: usize = 0;
        while k < team2.len()
            invariant
                k <= team2.len(),
                templates_wf(team1@),
                dice@ == spawned_team(team1@, 0) + spawned_team(team2@, 1).take(k as int),
                forall|j: int| 0 <= j < k ==> (#[trigger] team2@[j]).wf(),
            decreases team2.len() - k,
        {
            if !team2[k].is_well_formed() {
                return None;
            }
            dice.push(DiceState::spawn(&team2[k], DiceID { team_id: 1, dice_id: k }));
            k += 1;
            assert(dice@ =~= spawned_team(team1@, 0) + spawned_team(team2@, 1).take(k as int));
        }
        assert(dice@ =~= spawned_team(team1@, 0) + spawned_team(team2@, 1));
        proof {
            lemma_spawned_valid(team1@, team2@);
        }
        Some(Battle { dice })
    }

    /// How many dice the battle holds, the dead among them.
    pub fn len(&self) -> (n: usize)
        ensures
            n == self@.len(),
    {
        self.dice.len()
    }

    /// The die at a place.
    pub fn at(&self, i: usize) -> (die: DiceState)
        requires
            i < self@.len(),
        ensures
            die == self@[i as int],
    {
        self.dice[i]
    }

    /// A copy of all dice, in their order.
    pub fn dice(&self) -> (dice: Vec<DiceState>)
        ensures
            dice@ == self@,
    {
        let mut dice: Vec<DiceState> = Vec::new();
        let mut i: usize = 0;
        while i < self.dice.len()
            invariant
                i <= self.dice.len(),
                dice@ == self.dice@.take(i as int),
            decreases self.dice.len() - i,
        {
            dice.push(self.dice[i]);
            i += 1;
            assert(dice@ =~= self.dice@.take(i as int));
        }
        assert(dice@ =~= self.dice@);
        dice
    }

    /// The place of the living die with the given name.
    pub fn find(&self, dice_id: DiceID) -> (place: Option<usize>)
        ensures
            place is Some <==> has_living(self@, dice_id),
            place matches Some(i) ==> i < self@.len() && self@[i as int].dice.id == dice_id
                && self@[i as int].alive(),
    {
        let mut i: usize = 0;
        while i < self.dice.len()
            invariant
                i <= self.dice.len(),
                forall|j: int| 0 <= j < i ==> !((#[trigger] self@[j]).dice.id == dice_id && self@[j].alive()),
            decreases self.dice.len() - i,
        {
            if self.dice[i].dice.id == dice_id && self.dice[i].is_alive() {
                return Some(i);
            }
            i += 1;
        }
        None
    }

    /// The living die with the given name.
    pub fn get(&self, dice_id: DiceID) -> (die: Option<DiceState>)
        ensures
            die is Some <==> has_living(self@, dice_id),
            die matches Some(d) ==> d.dice.id == dice_id && d.alive() && self@.contains(d),
    {
        match self.find(dice_id) {
            Some(i) => Some(self.dice[i]),
            None => None,
        }
    }

    /// Puts a die in the place of one that carries the same name.
    pub(crate) fn replace(&mut self, i: usize, die: DiceState)
        requires
            old(self).wf(),
            i < old(self)@.len(),
            die.wf(),
            die.dice.id == old(self)@[i as int].dice.id,
        ensures
            final(self).wf(),
            final(self)@ == old(self)@.update(i as int, die),
    {
        self.dice.set(i, die);
    }
}

/// Freshly spawned teams make a valid battle as long as the templates are
/// well formed.
pub proof fn lemma_spawned_valid(team1: Seq<DiceTemplate>, team2: Seq<DiceTemplate>)
    requires
        templates_wf(team1),
        templates_wf(team2),
        team1.len() <= usize::MAX,
        team2.len() <= usize::MAX,
    ensures
        valid_dice(spawned_team(team1, 0) + spawned_team(team2, 1)),
{
    let dice = spawned_team(team1, 0) + spawned_team(team2, 1);
    assert forall|i: int, j: int|
        0 <= i < dice.len() && 0 <= j < dice.len() && i != j implies (#[trigger] dice[i]).dice.id
        != (#[trigger] dice[j]).dice.id by {
        if i < team1.len() {
            assert(dice[i].dice.id == DiceID { team_id: 0, dice_id: i as usize });
        } else {
            assert(dice[i].dice.id == DiceID { team_id: 1, dice_id: (i - team1.len()) as usize });
        }
        if j < team1.len() {
            assert(dice[j].dice.id == DiceID { team_id: 0, dice_id: j as usize });
        } else {
            assert(dice[j].dice.id == DiceID { team_id: 1, dice_id: (j - team1.len()) as usize });
        }
    }
    assert forall|i: int| 0 <= i < dice.len() implies (#[trigger] dice[i]).wf() by {
        if i < team1.len() {
            assert(team1[i].wf());
        } else {
            assert(team2[i - team1.len()].wf());
        }
    }
}

} // verus!
