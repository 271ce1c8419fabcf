//! Synergies: team-wide bonuses read off the faces a team brings.
//!
//! Every face of every die of a team adds to the intensity of a synergy kind.
//! The intensity is turned into a level by counting the break points it has
//! reached.

use crate::battle::Battle;
use crate::dice_instance::DiceState;
use crate::dice_template::DiceTemplate;
use crate::events::StartGame;
use crate::face::{Action, FacePrototype};
use crate::status::{applied, apply_to_slot, Burning};
use vstd::prelude::*;

verus! {

/// How many of the break points lie at or below the intensity.
pub open spec fn reached(points: Seq<u32>, intensity: u32) -> nat
    decreases points.len(),
{
    if points.len() == 0 {
        0
    } else {
        reached(points.drop_last(), intensity) + if points.last() <= intensity {
            1nat
        } else {
            0nat
        }
    }
}

/// Each break point is at least as large as the one before it.
pub open spec fn ascending(points: Seq<u32>) -> bool {
    forall|i: int, j: int| 0 <= i <= j < points.len() ==> points[i] <= points[j]
}

/// What one synergy kind reads from a team, how it grades the result and
/// what it does when its event is raised.
pub trait Synergy: Copy + Sized {
    /// The event that the synergy listens for.
    type TriggerEvent: Copy;

    /// The dice after the synergy has acted.
    spec fn resolved(self, dice: Seq<DiceState>, event: Self::TriggerEvent) -> Seq<DiceState>;

    /// Lets the synergy act on the battle.
    fn resolve(&self, battle: &mut Battle, event: Self::TriggerEvent)
        requires
            old(battle).wf(),
        ensures
            final(battle).wf(),
            final(battle)@ == self.resolved(old(battle)@, event),
    ;

    /// The synergy of a team whose faces add up to `intensity`, if that
    /// is enough for one.
    spec fn created(intensity: u32, team_id: usize) -> Option<Self>;

    spec fn strength(self) -> u32;

    /// The break points, in ascending order.
    spec fn points(self) -> Seq<u32>;

    /// What a single face adds to the intensity.
    spec fn face_value(face: FacePrototype) -> u32;

    fn new(intensity: u32, team_id: usize) -> (synergy: Option<Self>)
        ensures
            synergy == Self::created(intensity, team_id),
    ;

    fn intensity(&self) -> (intensity: u32)
        ensures
            intensity == self.strength(),
    ;

    fn break_points(&self) -> (points: Vec<u32>)
        ensures
            points@ == self.points(),
            ascending(points@),
            points@.len() <= u32::MAX,
    ;

    fn read_face(face: FacePrototype) -> (value: u32)
        ensures
            value == Self::face_value(face),
    ;

    /// The level of the synergy: the number of break points that its
    /// intensity has reached.
    fn level(&self) -> (level: u32)
        ensures
            level == reached(self.points(), self.strength()),
    {
        let points = self.break_points();
        let intensity = self.intensity();
        let mut level: u32 = 0;
        let mut i: usize = 0;
        while i < points.len()
            invariant
                i <= points.len(),
                points@.len() <= u32::MAX,
                level == reached(points@.take(i as int), intensity),
                level <= i,
            decreases points.len() - i,
        {
            assert(points@.take(i + 1).drop_last() =~= points@.take(i as int));
            if points[i] <= intensity {
                level += 1;
            }
            i += 1;
        }
        assert(points@.take(i as int) =~= points@);
        level
    }
}

/// With ascending break points the level is the place of the first break
/// point above the intensity, or their number where none lies above it.
pub proof fn lemma_level_is_first_unreached(points: Seq<u32>, intensity: u32, level: int)
    requires
        ascending(points),
        0 <= level <= points.len(),
        forall|i: int| 0 <= i < level ==> points[i] <= intensity,
        level < points.len() ==> points[level] > intensity,
    ensures
        reached(points, intensity) == level,
    decreases points.len(),
{
    if points.len() > 0 {
        let rest = points.drop_last();
        if level == points.len() {
            lemma_level_is_first_unreached(rest, intensity, level - 1);
        } else {
            assert(points[level] <= points.last());
            lemma_level_is_first_unreached(rest, intensity, level);
        }
    }
}

/// Burns every enemy die when the battle starts, the harder the more
/// fiery faces the team has brought.
#[derive(Clone, Copy, Debug, PartialEq, Eq, Structural)]
pub struct Fiery {
    pub intensity: u32,
    pub team_id: usize,
}

impl Synergy for Fiery {
    type TriggerEvent = StartGame;

    open spec fn resolved(self, dice: Seq<DiceState>, event: StartGame) -> Seq<DiceState> {
        dice.map_values(|d: DiceState| self.scorched(d))
    }

    fn resolve(&self, battle: &mut Battle, event: StartGame) {
        let burn = Burning { intensity: self.level() };
        let ghost before = battle@;
        let mut i: usize = 0;
        while i < battle.len()
            invariant
                battle.wf(),
                i <= battle@.len(),
                battle@.len() == before.len(),
                burn.intensity == reached(self.points(), self.strength()),
                forall|j: int| 0 <= j < i ==> #[trigger] battle@[j] == self.scorched(before[j]),
                forall|j: int| i <= j < before.len() ==> #[trigger] battle@[j] == before[j],
            decreases battle@.len() - i,
        {
            let mut die = battle.at(i);
            if die.is_alive() && die.dice.id.team_id != self.team_id {
                apply_to_slot(&mut die.burning, burn);
                battle.replace(i, die);
            }
            i += 1;
        }
        assert(battle@ =~= before.map_values(|d: DiceState| self.scorched(d)));
    }

    open spec fn created(intensity: u32, team_id: usize) -> Option<Fiery> {
        if intensity > 0 {
            Some(Fiery { intensity, team_id })
        } else {
            None
        }
    }

    open spec fn strength(self) -> u32 {
        self.intensity
    }

    open spec fn points(self) -> Seq<u32> {
        seq![1u32, 3u32, 5u32]
    }

    open spec fn face_value(face: FacePrototype) -> u32 {
        if face.action == Action::Fiery {
            1
        } else {
            0
        }
    }

    fn new(intensity: u32, team_id: usize) -> (synergy: Option<Fiery>) {
        if intensity > 0 {
            Some(Fiery { intensity, team_id })
        } else {
            None
        }
    }

    fn intensity(&self) -> (intensity: u32) {
        self.intensity
    }

    fn break_points(&self) -> (points: Vec<u32>) {
        let mut points: Vec<u32> = Vec::new();
        points.push(1);
        points.push(3);
        points.push(5);
        assert(points@ =~= self.points());
        points
    }

    fn read_face(face: FacePrototype) -> (value: u32) {
        match face.action {
            Action::Fiery => 1,
            _ => 0,
        }
    }
}

impl Fiery {
    /// The die after the synergy has acted: a living die of the other team
    /// receives a burn as intense as the synergy's level.
    pub open spec fn scorched(self, die: DiceState) -> DiceState {
        if die.alive() && die.dice.id.team_id != self.team_id {
            DiceState {
                burning: applied(
                    die.burning,
                    Burning { intensity: reached(self.points(), self.strength()) as u32 },
                ),
                ..die
            }
        } else {
            die
        }
    }

    pub fn name() -> (name: &'static str)
        ensures
            name@ == "Fiery"@,
    {
        "Fiery"
    }

    /// What the synergy does, in words for a tooltip.
    pub fn description() -> (text: &'static str)
        ensures
            text@
                == "Applies Burning to all opponents at the start of battle\n1 -> 1 Burning\n3 -> 2 Burning\n5 -> 3 Burning\n"@,
    {
        "Applies Burning to all opponents at the start of battle\n1 -> 1 Burning\n3 -> 2 Burning\n5 -> 3 Burning\n"
    }
}

/// What the first `count` faces of a die add to a synergy's intensity.
pub open spec fn faces_value<S: Synergy>(faces: Seq<FacePrototype>, count: int) -> nat
    decreases count,
{
    if count <= 0 {
        0
    } else {
        faces_value::<S>(faces, count - 1) + S::face_value(faces[count - 1]) as nat
    }
}

/// What all faces of the first `count` templates add to a synergy's intensity.
pub open spec fn team_value<S: Synergy>(templates: Seq<DiceTemplate>, count: int) -> nat
    decreases count,
{
    if count <= 0 {
        0
    } else {
        team_value::<S>(templates, count - 1) + faces_value::<S>(templates[count - 1].faces@, 6)
    }
}

/// A total, held at the largest `u32` where it would pass it.
pub open spec fn capped(total: nat) -> u32 {
    if total <= u32::MAX {
        total as u32
    } else {
        u32::MAX
    }
}

/// The synergy that a team's templates add up to, if any.
pub open spec fn synergy_of<S: Synergy>(templates: Seq<DiceTemplate>, team_id: usize) -> Option<S> {
    S::created(capped(team_value::<S>(templates, templates.len() as int)), team_id)
}

/// The intensity that a team's templates give to a synergy kind.
pub fn team_intensity<S: Synergy>(templates: &Vec<DiceTemplate>) -> (intensity: u32)
    ensures
        intensity == capped(team_value::<S>(templates@, templates@.len() as int)),
{
    let mut intensity: u32 = 0;
    let mut i: usize = 0;
    while i < templates.len()
        invariant
            i <= templates.len(),
            intensity == capped(team_value::<S>(templates@, i as int)),
        decreases templates.len() - i,
    {
        let mut k: usize = 0;
        while k < 6
            invariant
                k <= 6,
                i < templates.len(),
                intensity == capped(
                    team_value::<S>(templates@, i as int) + faces_value::<S>(
                        templates@[i as int].faces@,
                        k as int,
                    ),
                ),
            decreases 6 - k,
        {
            intensity = intensity.saturating_add(S::read_face(templates[i].faces[k]));
            k += 1;
        }
        i += 1;
    }
    intensity
}

/// The synergy of one kind that each of the two teams has, if any.
pub struct TeamSynergy<S: Synergy> {
    pub synergies: [Option<S>; 2],
}

impl<S: Synergy> TeamSynergy<S> {
    /// The dice after the synergies of both teams have acted, the first
    /// team's before the second's.
    pub open spec fn triggered(self, dice: Seq<DiceState>, event: S::TriggerEvent) -> Seq<
        DiceState,
    > {
        let first = match self.synergies[0] {
            Some(synergy) => synergy.resolved(dice, event),
            None => dice,
        };
        match self.synergies[1] {
            Some(synergy) => synergy.resolved(first, event),
            None => first,
        }
    }

    /// Raises the synergies' event: each team's synergy acts, the first
    /// team's before the second's.
    pub fn trigger(&self, battle: &mut Battle, event: S::TriggerEvent)
        requires
            old(battle).wf(),
        ensures
            final(battle).wf(),
            final(battle)@ == self.triggered(old(battle)@, event),
    {
        let mut team_id: usize = 0;
        while team_id < 2
            invariant
                battle.wf(),
                team_id <= 2,
                team_id == 0 ==> battle@ == old(battle)@,
                team_id == 1 ==> battle@ == match self.synergies[0] {
                    Some(synergy) => synergy.resolved(old(battle)@, event),
                    None => old(battle)@,
                },
                team_id == 2 ==> battle@ == self.triggered(old(battle)@, event),
            decreases 2 - team_id,
        {
            if let Some(synergy) = self.synergies[team_id] {
                synergy.resolve(battle, event);
            }
            team_id += 1;
        }
    }

    /// Neither team has the synergy.
    pub fn none() -> (synergy: TeamSynergy<S>)
        ensures
            synergy.synergies[0] is None,
            synergy.synergies[1] is None,
    {
        TeamSynergy { synergies: [None, None] }
    }

    /// Reads the synergy of both teams off their templates.
    pub fn update_team_synergy(team1: &Vec<DiceTemplate>, team2: &Vec<DiceTemplate>) -> (synergy:
        TeamSynergy<S>)
        ensures
            synergy.synergies[0] == synergy_of::<S>(team1@, 0),
            synergy.synergies[1] == synergy_of::<S>(team2@, 1),
    {
        let first = S::new(team_intensity::<S>(team1), 0);
        let second = S::new(team_intensity::<S>(team2), 1);
        TeamSynergy { synergies: [first, second] }
    }
}

} // verus!
