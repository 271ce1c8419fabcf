//! The dice collector: how long a throw lasts and what follows it.
//!
//! A throw is given a shortest time, so that dice which have not yet begun
//! to move are not taken for settled, and a longest time, after which they
//! count as settled however much they still move. Settled dice are held
//! still for a while, collected into their rows and presented before their
//! faces are executed.

use vstd::prelude::*;

verus! {

/// The shortest time a throw is given, in milliseconds.
pub const MIN_THROW_MILLIS: u64 = 100;

/// The longest time a throw is given, in milliseconds.
pub const MAX_THROW_MILLIS: u64 = 5_000;

/// How long settled dice are held still, in milliseconds.
pub const STATIONARY_MILLIS: u64 = 2_000;

/// How long collecting the dice into their rows takes, in milliseconds.
pub const COLLECTING_MILLIS: u64 = 2_000;

/// How long the collected dice are presented, in milliseconds.
pub const PRESENTING_MILLIS: u64 = 5_000;

/// Whether a throw that has lasted `elapsed_millis` is over: the shortest
/// time has passed and all dice lie still, or the longest time has run out.
pub open spec fn throw_over(elapsed_millis: u64, all_stationary: bool) -> bool {
    (elapsed_millis >= MIN_THROW_MILLIS && all_stationary) || elapsed_millis >= MAX_THROW_MILLIS
}

/// Whether a throw that has lasted `elapsed_millis` is over.
pub fn roll_is_over(elapsed_millis: u64, all_stationary: bool) -> (over: bool)
    ensures
        over == throw_over(elapsed_millis, all_stationary),
{
    (elapsed_millis >= MIN_THROW_MILLIS && all_stationary) || elapsed_millis >= MAX_THROW_MILLIS
}

/// What the dice are doing between two rounds of turns.
#[derive(Clone, Copy, Debug, PartialEq, Eq, Structural)]
pub enum BattleStage {
    Inactive,
    Pending,
    /// The dice have been thrown and are moving.
    Throwing,
    /// The dice are held where they have settled.
    Stationary,
    /// The dice are moved to their rows.
    Collecting,
    /// The dice are shown in their rows.
    Presenting,
    /// The faces of the dice are executed.
    Executing,
}

/// The stage the dice are in and how long they have been in it.
#[derive(Clone, Copy, Debug, PartialEq, Eq, Structural)]
pub struct DiceCollector {
    pub stage: BattleStage,
    /// Milliseconds spent in the stage so far.
    pub elapsed_millis: u64,
}

impl Default for DiceCollector {
    fn default() -> (collector: DiceCollector)
        ensures
            collector == (DiceCollector { stage: BattleStage::Inactive, elapsed_millis: 0 }),
    {
        DiceCollector { stage: BattleStage::Inactive, elapsed_millis: 0 }
    }
}

/// The time in a stage after `delta_millis` more, held at the largest value
/// where it would pass it.
pub open spec fn later(elapsed_millis: u64, delta_millis: u64) -> u64 {
    if elapsed_millis + delta_millis <= u64::MAX {
        (elapsed_millis + delta_millis) as u64
    } else {
        u64::MAX
    }
}

/// Whether time is counted in the stage.
pub open spec fn timed(stage: BattleStage) -> bool {
    stage == BattleStage::Throwing || stage == BattleStage::Stationary || stage
        == BattleStage::Collecting || stage == BattleStage::Presenting
}

/// Whether a stage that has lasted `elapsed_millis` has had its time.
pub open spec fn stage_over(stage: BattleStage, elapsed_millis: u64, all_stationary: bool) -> bool {
    match stage {
        BattleStage::Throwing => throw_over(elapsed_millis, all_stationary),
        BattleStage::Stationary => elapsed_millis >= STATIONARY_MILLIS,
        BattleStage::Collecting => elapsed_millis >= COLLECTING_MILLIS,
        BattleStage::Presenting => elapsed_millis >= PRESENTING_MILLIS,
        _ => false,
    }
}

/// The stage that follows a stage.
pub open spec fn stage_after(stage: BattleStage) -> BattleStage {
    match stage {
        BattleStage::Throwing => BattleStage::Stationary,
        BattleStage::Stationary => BattleStage::Collecting,
        BattleStage::Collecting => BattleStage::Presenting,
        BattleStage::Presenting => BattleStage::Executing,
        other => other,
    }
}

impl DiceCollector {
    /// The collector after `delta_millis` have passed. A stage that has
    /// had its time gives way to the next, which starts at zero. Where no
    /// time is counted nothing changes.
    pub open spec fn ticked(self, delta_millis: u64, all_stationary: bool) -> DiceCollector {
        let elapsed_millis = later(self.elapsed_millis, delta_millis);
        if !timed(self.stage) {
            self
        } else if stage_over(self.stage, elapsed_millis, all_stationary) {
            DiceCollector { stage: stage_after(self.stage), elapsed_millis: 0 }
        } else {
            DiceCollector { stage: self.stage, elapsed_millis }
        }
    }

    /// Starts a throw.
    pub fn set_throwing(&mut self)
        ensures
            *final(self) == (DiceCollector { stage: BattleStage::Throwing, elapsed_millis: 0 }),
    {
        self.stage = BattleStage::Throwing;
        self.elapsed_millis = 0;
    }

    /// Lets `delta_millis` pass and returns the stage the dice are in
    /// afterwards.
    pub fn tick(&mut self, delta_millis: u64, all_stationary: bool) -> (stage: BattleStage)
        ensures
            *final(self) == old(self).ticked(delta_millis, all_stationary),
            stage == final(self).stage,
    {
        let elapsed_millis = self.elapsed_millis.saturating_add(delta_millis);
        let next = match self.stage {
            BattleStage::Throwing => if roll_is_over(elapsed_millis, all_stationary) {
                Some(BattleStage::Stationary)
            } else {
                None
            },
            BattleStage::Stationary => if elapsed_millis >= STATIONARY_MILLIS {
                Some(BattleStage::Collecting)
            } else {
                None
            },
            BattleStage::Collecting => if elapsed_millis >= COLLECTING_MILLIS {
                Some(BattleStage::Presenting)
            } else {
                None
            },
            BattleStage::Presenting => if elapsed_millis >= PRESENTING_MILLIS {
                Some(BattleStage::Executing)
            } else {
                None
            },
            BattleStage::Inactive | BattleStage::Pending | BattleStage::Executing => {
                return self.stage;
            },
        };
        match next {
            Some(stage) => {
                self.stage = stage;
                self.elapsed_millis = 0;
            },
            None => {
                self.elapsed_millis = elapsed_millis;
            },
        }
        self.stage
    }
}

/// A throw never ends before its shortest time and never lasts beyond its
/// longest, whatever the dice do.
pub proof fn lemma_throw_window(collector: DiceCollector, delta_millis: u64, all_stationary: bool)
    requires
        collector.stage == BattleStage::Throwing,
    ensures
        later(collector.elapsed_millis, delta_millis) < MIN_THROW_MILLIS ==> collector.ticked(
            delta_millis,
            all_stationary,
        ).stage == BattleStage::Throwing,
        later(collector.elapsed_millis, delta_millis) >= MAX_THROW_MILLIS ==> collector.ticked(
            delta_millis,
            all_stationary,
        ).stage == BattleStage::Stationary,
{
}

} // verus!
