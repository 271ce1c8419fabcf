//! The turn sequencer: the rounds of a battle as a state machine.
//!
//! The sequencer decides; its caller rolls the dice and plays the
//! animations. Every step takes what the caller reports and answers with
//! what the caller is to do next.

use crate::battle::{has_living, spawned_team, team_alive, templates_wf, valid_dice, Battle};
use crate::dice_instance::{DiceID, DiceState};
use crate::dice_template::DiceTemplate;
use crate::dispatch::{round_started, trigger_start_round};
use crate::events::{StartGame, StartRound};
use crate::roll::{
    compute_row_positions, is_row, lemma_lies_up_unique, lies_up, play_turn, ranked,
    resolution_order, settle, settled, turn_order, turn_played, turn_valid, Rows, Turn,
};
use crate::synergy::{synergy_of, Fiery, TeamSynergy};
use vstd::prelude::*;

verus! {

/// How a battle has ended.
#[derive(Clone, Copy, Debug, PartialEq, Eq, Structural)]
pub enum Outcome {
    Team1Won,
    Team2Won,
    /// Neither team has a living die left.
    Draw,
}

/// Where in a round the battle stands.
#[derive(Clone, Copy, Debug, PartialEq, Eq, Structural)]
pub enum Phase {
    /// The battle has not begun.
    Idle,
    /// The dice are rolling; the sequencer waits to hear how they settled.
    Rolling,
    /// The dice stand in their rows and wait for their turns.
    Resolving,
    /// Every die has had its turn; the winner is looked for next.
    RoundEnd,
    GameOver(Outcome),
}

/// Where a die has come to rest: how far along the table, and for each of
/// its sides how far the outward normal points upwards.
#[derive(Clone, Copy, Debug, PartialEq, Eq)]
pub struct Settlement {
    pub dice_id: DiceID,
    pub x: i64,
    pub dots: [i64; 6],
}

/// What the caller reports to the sequencer.
#[derive(Debug, PartialEq, Eq)]
pub enum FlowEvent {
    /// The battle is to begin.
    Start,
    /// The rolled dice have come to rest.
    Settled(Vec<Settlement>),
    /// The caller has done what the last step asked for.
    Continue,
}

/// What the sequencer asks its caller to do next.
#[derive(Debug, PartialEq, Eq)]
pub enum FlowAction {
    /// The event does not belong to the phase; nothing has changed.
    Ignored,
    /// Roll the living dice and report how they settle.
    RollDices,
    /// Move the dice to their places in the rows, then continue.
    MoveToRows,
    /// Show the turn that a die has taken, then continue.
    ShowTurn(Turn),
    /// No die was left to take a turn; continue.
    RoundOver,
    /// The battle is over.
    EndBattle(Outcome),
}

/// The winner, once a team has no living die left. While both teams have
/// one the battle goes on; when neither has, it is a draw.
pub open spec fn winner(dice: Seq<DiceState>) -> Option<Outcome> {
    if team_alive(dice, 0) {
        if team_alive(dice, 1) {
            None
        } else {
            Some(Outcome::Team1Won)
        }
    } else {
        if team_alive(dice, 1) {
            Some(Outcome::Team2Won)
        } else {
            Some(Outcome::Draw)
        }
    }
}

/// Whether the team has a living die.
pub fn has_dice_left(battle: &Battle, team_id: usize) -> (left: bool)
    ensures
        left == team_alive(battle@, team_id),
{
    let mut i: usize = 0;
    while i < battle.len()
        invariant
            i <= battle@.len(),
            forall|j: int|
                0 <= j < i ==> !((#[trigger] battle@[j]).dice.id.team_id == team_id
                    && battle@[j].alive()),
        decreases battle@.len() - i,
    {
        let die = battle.at(i);
        if die.dice.id.team_id == team_id && die.is_alive() {
            return true;
        }
        i += 1;
    }
    false
}

/// Looks for the winner of the battle.
pub fn done(battle: &Battle) -> (outcome: Option<Outcome>)
    ensures
        outcome == winner(battle@),
{
    let dices_1_left = has_dice_left(battle, 0);
    let dices_2_left = has_dice_left(battle, 1);
    if dices_1_left {
        if dices_2_left {
            None
        } else {
            Some(Outcome::Team1Won)
        }
    } else {
        if dices_2_left {
            Some(Outcome::Team2Won)
        } else {
            Some(Outcome::Draw)
        }
    }
}

/// A team without a living die never wins, and a team wins only when it
/// has a living die and the other team has none. Where neither team has
/// one the battle is a draw.
pub proof fn lemma_winner_has_dice_left(dice: Seq<DiceState>)
    ensures
        winner(dice) == Some(Outcome::Team1Won) <==> team_alive(dice, 0) && !team_alive(dice, 1),
        winner(dice) == Some(Outcome::Team2Won) <==> team_alive(dice, 1) && !team_alive(dice, 0),
        winner(dice) == Some(Outcome::Draw) <==> !team_alive(dice, 0) && !team_alive(dice, 1),
        winner(dice) is None <==> team_alive(dice, 0) && team_alive(dice, 1),
{
}

/// The side of a settled die that lies up.
pub open spec fn top_face(dots: Seq<i64>) -> int {
    choose|face: int| lies_up(dots, face)
}

/// The dice after each of the settlements has been recorded, in their
/// order. A settlement of a die that is not alive changes nothing.
pub open spec fn all_settled(dice: Seq<DiceState>, settlements: Seq<Settlement>) -> Seq<DiceState>
    decreases settlements.len(),
{
    if settlements.len() == 0 {
        dice
    } else {
        let last = settlements.last();
        settled(
            all_settled(dice, settlements.drop_last()),
            last.dice_id,
            last.x,
            top_face(last.dots@) as usize,
        )
    }
}

/// The dice with every living die's row position set to its rank.
pub open spec fn lined_up(dice: Seq<DiceState>) -> Seq<DiceState> {
    Seq::new(dice.len(), |i: int| ranked(dice, i))
}

/// The dice after the round's start has been raised.
pub open spec fn round_begun(dice: Seq<DiceState>, round: u32) -> Seq<DiceState> {
    dice.map_values(|d: DiceState| round_started(d, StartRound { round }))
}

/// The number of the round after `round`.
pub open spec fn following(round: u32) -> u32 {
    if round < u32::MAX {
        (round + 1) as u32
    } else {
        round
    }
}

/// The dice after the start of the battle has been raised: the synergies
/// of both teams have acted.
pub open spec fn game_started(dice: Seq<DiceState>, synergies: [Option<Fiery>; 2]) -> Seq<
    DiceState,
> {
    (TeamSynergy { synergies }).triggered(dice, StartGame)
}

/// What a sequencer holds, as plain values.
pub struct FlowView {
    pub dice: Seq<DiceState>,
    pub synergies: [Option<Fiery>; 2],
    pub team1: Seq<DiceID>,
    pub team2: Seq<DiceID>,
    /// How many dice have taken their turn since the rows were formed.
    pub turns_taken: nat,
    pub round: u32,
    pub phase: Phase,
}

/// A battle together with the phase it is in.
pub struct Flow {
    pub(crate) battle: Battle,
    pub(crate) synergies: TeamSynergy<Fiery>,
    pub(crate) rows: Rows,
    pub(crate) order: Vec<DiceID>,
    pub(crate) cursor: usize,
    pub(crate) round: u32,
    pub(crate) phase: Phase,
}

impl Flow {
    pub open(crate) spec fn view(&self) -> FlowView {
        FlowView {
            dice: self.battle@,
            synergies: self.synergies.synergies,
            team1: self.rows.team1@,
            team2: self.rows.team2@,
            turns_taken: self.cursor as nat,
            round: self.round,
            phase: self.phase,
        }
    }

    /// The sequencer's invariant: its dice make a valid battle, and it
    /// knows the order of the turns that its rows give.
    pub open(crate) spec fn wf(&self) -> bool {
        &&& valid_dice(self.battle@)
        &&& self.order@ == resolution_order(self.rows.team1@, self.rows.team2@)
        &&& self.cursor <= self.order@.len()
    }

    /// The dice of a sequencer make a valid battle: they carry distinct
    /// names and the health of each lies between zero and its maximum.
    pub proof fn lemma_dice_valid(&self)
        requires
            self.wf(),
        ensures
            valid_dice(self@.dice),
            self@.turns_taken <= resolution_order(self@.team1, self@.team2).len(),
    {
    }

    /// A battle between two teams that has not begun. Templates with a
    /// face that lacks the pips its action reads are refused.
    pub fn new(team1: &Vec<DiceTemplate>, team2: &Vec<DiceTemplate>) -> (flow: Option<Flow>)
        ensures
            flow is Some <==> templates_wf(team1@) && templates_wf(team2@),
            flow matches Some(f) ==> {
                &&& f.wf()
                &&& f@.dice == spawned_team(team1@, 0) + spawned_team(team2@, 1)
                &&& f@.synergies[0] == synergy_of::<Fiery>(team1@, 0)
                &&& f@.synergies[1] == synergy_of::<Fiery>(team2@, 1)
                &&& f@.team1.len() == 0
                &&& f@.team2.len() == 0
                &&& f@.turns_taken == 0
                &&& f@.round == 0
                &&& f@.phase == Phase::Idle
            },
    {
        match Battle::new(team1, team2) {
            Some(battle) => Some(
                Flow {
                    battle,
                    synergies: TeamSynergy::update_team_synergy(team1, team2),
                    rows: Rows { team1: Vec::new(), team2: Vec::new() },
                    order: Vec::new(),
                    cursor: 0,
                    round: 0,
                    phase: Phase::Idle,
                },
            ),
            None => None,
        }
    }

    pub fn phase(&self) -> (phase: Phase)
        ensures
            phase == self@.phase,
    {
        self.phase
    }

    pub fn round(&self) -> (round: u32)
        ensures
            round == self@.round,
    {
        self.round
    }

    /// A copy of all dice, in their order.
    pub fn dice(&self) -> (dice: Vec<DiceState>)
        ensures
            dice@ == self@.dice,
    {
        self.battle.dice()
    }

    /// The living die with the given name.
    pub fn get(&self, dice_id: DiceID) -> (die: Option<DiceState>)
        ensures
            die is Some <==> has_living(self@.dice, dice_id),
            die matches Some(d) ==> d.dice.id == dice_id && d.alive() && self@.dice.contains(d),
    {
        self.battle.get(dice_id)
    }

    /// The names of one team's living dice in row order, as the last
    /// settled roll has left them.
    pub fn row(&self, team_id: usize) -> (row: Vec<DiceID>)
        ensures
            row@ == if team_id == 0 {
                self@.team1
            } else {
                self@.team2
            },
    {
        let source = if team_id == 0 {
            &self.rows.team1
        } else {
            &self.rows.team2
        };
        let mut row: Vec<DiceID> = Vec::new();
        let mut i: usize = 0;
        while i < source.len()
            invariant
                i <= source@.len(),
                row@ == source@.take(i as int),
            decreases source@.len() - i,
        {
            row.push(source[i]);
            i += 1;
            assert(row@ =~= source@.take(i as int));
        }
        assert(row@ =~= source@);
        row
    }
}

/// Whether a step that takes the sequencer from `before` to `after` on
/// `event` and answers with `action` is the step that the rules ask for.
pub open spec fn stepped(
    before: FlowView,
    event: FlowEvent,
    action: FlowAction,
    after: FlowView,
) -> bool {
    match (before.phase, event) {
        (Phase::Idle, FlowEvent::Start) => {
            &&& action == FlowAction::RollDices
            &&& after == (FlowView {
                dice: round_begun(game_started(before.dice, before.synergies), 1),
                round: 1,
                phase: Phase::Rolling,
                ..before
            })
        },
        (Phase::Rolling, FlowEvent::Settled(settlements)) => {
            let rested = all_settled(before.dice, settlements@);
            &&& action == FlowAction::MoveToRows
            &&& after.dice == lined_up(rested)
            &&& is_row(rested, true, after.team1)
            &&& is_row(rested, false, after.team2)
            &&& after.synergies == before.synergies
            &&& after.turns_taken == 0
            &&& after.round == before.round
            &&& after.phase == Phase::Resolving
        },
        (Phase::Resolving, FlowEvent::Continue) => {
            let order = resolution_order(before.team1, before.team2);
            if before.turns_taken < order.len() {
                &&& action matches FlowAction::ShowTurn(turn)
                &&& turn.dice_id == order[before.turns_taken as int]
                &&& turn_valid(before.dice, turn)
                &&& after == (FlowView {
                    dice: turn_played(before.dice, turn),
                    turns_taken: before.turns_taken + 1,
                    phase: if before.turns_taken + 1 < order.len() {
                        Phase::Resolving
                    } else {
                        Phase::RoundEnd
                    },
                    ..before
                })
            } else {
                &&& action == FlowAction::RoundOver
                &&& after == (FlowView { phase: Phase::RoundEnd, ..before })
            }
        },
        (Phase::RoundEnd, FlowEvent::Continue) => match winner(before.dice) {
            Some(outcome) => {
                &&& action == FlowAction::EndBattle(outcome)
                &&& after == (FlowView { phase: Phase::GameOver(outcome), ..before })
            },
            None => {
                &&& action == FlowAction::RollDices
                &&& after == (FlowView {
                    dice: round_begun(before.dice, following(before.round)),
                    round: following(before.round),
                    phase: Phase::Rolling,
                    ..before
                })
            },
        },
        _ => action == FlowAction::Ignored && after == before,
    }
}

impl Flow {
    /// Records how the rolled dice have settled and lines them up.
    fn line_up(&mut self, settlements: &Vec<Settlement>)
        requires
            old(self).wf(),
        ensures
            final(self).wf(),
            final(self)@.dice == lined_up(all_settled(old(self)@.dice, settlements@)),
            is_row(all_settled(old(self)@.dice, settlements@), true, final(self)@.team1),
            is_row(all_settled(old(self)@.dice, settlements@), false, final(self)@.team2),
            final(self)@.turns_taken == 0,
            final(self)@.synergies == old(self)@.synergies,
            final(self)@.round == old(self)@.round,
            final(self)@.phase == old(self)@.phase,
    {
        let mut i: usize = 0;
        while i < settlements.len()
            invariant
                self.battle.wf(),
                i <= settlements@.len(),
                self.battle@ == all_settled(old(self)@.dice, settlements@.take(i as int)),
                self.synergies == old(self).synergies,
                self.round == old(self).round,
                self.phase == old(self).phase,
            decreases settlements@.len() - i,
        {
            let s = settlements[i];
            let ghost dice = self.battle@;
            let result = settle(&mut self.battle, s.dice_id, s.x, &s.dots);
            proof {
                let top = top_face(s.dots@);
                match result {
                    Ok(face_id) => {
                        lemma_lies_up_unique(s.dots@, face_id as int, top);
                    },
                    Err(_) => {
                        assert(dice =~= settled(dice, s.dice_id, s.x, top as usize));
                    },
                }
                assert(settlements@.take(i + 1).drop_last() =~= settlements@.take(i as int));
            }
            i += 1;
        }
        assert(settlements@.take(i as int) =~= settlements@);
        let ghost rested = self.battle@;
        self.rows = compute_row_positions(&mut self.battle);
        self.order = turn_order(&self.rows);
        self.cursor = 0;
        assert(self.battle@ =~= lined_up(rested));
    }

    /// Takes the battle one step further.
    ///
    /// * `Start` while idle raises the start of the battle and of the first
    ///   round and asks for a roll.
    /// * `Settled` while rolling records where the dice rest and lines them
    ///   up in their rows.
    /// * `Continue` while resolving lets the next die in row order take its
    ///   turn; the round ends with the turn of the last die.
    /// * `Continue` at the end of a round looks for the winner; without one
    ///   the next round starts and a roll is asked for.
    ///
    /// Any other event is ignored.
    pub fn step(&mut self, event: FlowEvent) -> (action: FlowAction)
        requires
            old(self).wf(),
        ensures
            final(self).wf(),
            stepped(old(self)@, event, action, final(self)@),
    {
        match self.phase {
            Phase::Idle => match event {
                FlowEvent::Start => {
                    self.synergies.trigger(&mut self.battle, StartGame);
                    self.round = 1;
                    trigger_start_round(&mut self.battle, StartRound { round: 1 });
                    self.phase = Phase::Rolling;
                    FlowAction::RollDices
                },
                _ => FlowAction::Ignored,
            },
            Phase::Rolling => match event {
                FlowEvent::Settled(settlements) => {
                    self.line_up(&settlements);
                    self.phase = Phase::Resolving;
                    FlowAction::MoveToRows
                },
                _ => FlowAction::Ignored,
            },
            Phase::Resolving => match event {
                FlowEvent::Continue => {
                    if self.cursor < self.order.len() {
                        let turn = play_turn(&mut self.battle, self.order[self.cursor]);
                        self.cursor += 1;
                        if self.cursor >= self.order.len() {
                            self.phase = Phase::RoundEnd;
                        }
                        FlowAction::ShowTurn(turn)
                    } else {
                        self.phase = Phase::RoundEnd;
                        FlowAction::RoundOver
                    }
                },
                _ => FlowAction::Ignored,
            },
            Phase::RoundEnd => match event {
                FlowEvent::Continue => match done(&self.battle) {
                    Some(outcome) => {
                        self.phase = Phase::GameOver(outcome);
                        FlowAction::EndBattle(outcome)
                    },
                    None => {
                        if self.round < u32::MAX {
                            self.round += 1;
                        }
                        trigger_start_round(&mut self.battle, StartRound { round: self.round });
                        self.phase = Phase::Rolling;
                        FlowAction::RollDices
                    },
                },
                _ => FlowAction::Ignored,
            },
            Phase::GameOver(_) => FlowAction::Ignored,
        }
    }
}

} // verus!
