//! The roll evaluator: which face of a settled die lies up and where the
//! die stands in its team's row.

use crate::action::{played, resolve, valid_choices};
use crate::battle::{has_living, Battle};
use crate::select_targets::ResolutionContext;
use crate::dice_instance::{Dice, DiceID, DiceState};
use crate::events::AccessError;
use vstd::prelude::*;

verus! {

/// Whether `face` is the side that lies up, given for each side how far its
/// outward normal points upwards: no side points higher, and every side
/// before it points lower.
pub open spec fn lies_up(dots: Seq<i64>, face: int) -> bool {
    &&& 0 <= face < dots.len()
    &&& forall|k: int| 0 <= k < dots.len() ==> dots[k] <= dots[face]
    &&& forall|k: int| 0 <= k < face ==> dots[k] < dots[face]
}

/// The side of a die that lies up. `dots` holds for each side how far its
/// outward normal points upwards; of several sides that point equally high
/// the first counts.
pub fn get_face_id(dots: &[i64; 6]) -> (face_id: usize)
    ensures
        lies_up(dots@, face_id as int),
{
    let mut face_id: usize = 0;
    let mut i: usize = 1;
    while i < 6
        invariant
            1 <= i <= 6,
            face_id < i,
            forall|k: int| 0 <= k < i ==> dots@[k] <= dots@[face_id as int],
            forall|k: int| 0 <= k < face_id ==> dots@[k] < dots@[face_id as int],
        decreases 6 - i,
    {
        if dots[i] > dots[face_id] {
            face_id = i;
        }
        i += 1;
    }
    face_id
}

/// At most one side lies up.
pub proof fn lemma_lies_up_unique(dots: Seq<i64>, a: int, b: int)
    requires
        lies_up(dots, a),
        lies_up(dots, b),
    ensures
        a == b,
{
    if a < b {
        assert(dots[a] < dots[b]);
        assert(dots[b] <= dots[a]);
    } else if b < a {
        assert(dots[b] < dots[a]);
        assert(dots[a] <= dots[b]);
    }
}

/// The dice after the living die named `dice_id` has settled at `x` with
/// the side `face_id` up.
pub open spec fn settled(dice: Seq<DiceState>, dice_id: DiceID, x: i64, face_id: usize) -> Seq<
    DiceState,
> {
    dice.map_values(
        |d: DiceState|
            if d.dice.id == dice_id && d.alive() {
                DiceState { x, face_up: face_id, ..d }
            } else {
                d
            },
    )
}

/// Records where a rolled die has come to rest and which side lies up.
pub fn settle(battle: &mut Battle, dice_id: DiceID, x: i64, dots: &[i64; 6]) -> (result: Result<
    usize,
    AccessError,
>)
    requires
        old(battle).wf(),
    ensures
        final(battle).wf(),
        result is Ok <==> has_living(old(battle)@, dice_id),
        result is Err ==> final(battle)@ == old(battle)@,
        result matches Ok(face_id) ==> lies_up(dots@, face_id as int) && final(battle)@ == settled(
            old(battle)@,
            dice_id,
            x,
            face_id,
        ),
{
    match battle.find(dice_id) {
        Some(i) => {
            let face_id = get_face_id(dots);
            let mut die = battle.at(i);
            die.x = x;
            die.face_up = face_id;
            proof {
                crate::interaction::lemma_update_is_map(
                    battle@,
                    i as int,
                    |d: DiceState| DiceState { x, face_up: face_id, ..d },
                );
                assert(battle@.update(i as int, die) =~= settled(battle@, dice_id, x, face_id));
            }
            battle.replace(i, die);
            Ok(face_id)
        },
        None => Err(AccessError::InvalidDiceID),
    }
}

/// The living dice of each team, in the order in which they stand in
/// their team's row.
#[derive(Debug, Default, PartialEq, Eq)]
pub struct Rows {
    pub team1: Vec<DiceID>,
    pub team2: Vec<DiceID>,
}

/// Whether the die stands in the first team's row rather than the second's.
pub open spec fn first_side(die: DiceState) -> bool {
    die.dice.id.team_id == 0
}

/// Whether die `j` stands before die `i` in their common row: it is alive,
/// of the same team, and has come to rest further left, or equally far
/// left and is the earlier die of the battle.
pub open spec fn stands_before(dice: Seq<DiceState>, j: int, i: int) -> bool {
    &&& dice[j].alive()
    &&& first_side(dice[j]) == first_side(dice[i])
    &&& (dice[j].x < dice[i].x || (dice[j].x == dice[i].x && j < i))
}

/// How many of the first `count` dice stand before die `i` in its row.
pub open spec fn ahead(dice: Seq<DiceState>, i: int, count: int) -> nat
    decreases count,
{
    if count <= 0 {
        0
    } else {
        ahead(dice, i, count - 1) + if stands_before(dice, count - 1, i) {
            1nat
        } else {
            0nat
        }
    }
}

/// The rank of die `i` in its team's row, counted from zero.
pub open spec fn rank(dice: Seq<DiceState>, i: int) -> nat {
    ahead(dice, i, dice.len() as int)
}

/// How many of the first `count` dice are alive and on the given side.
pub open spec fn team_size(dice: Seq<DiceState>, first: bool, count: int) -> nat
    decreases count,
{
    if count <= 0 {
        0
    } else {
        team_size(dice, first, count - 1) + if dice[count - 1].alive() && first_side(
            dice[count - 1],
        ) == first {
            1nat
        } else {
            0nat
        }
    }
}

/// Fewer dice stand before a living die than its team has living dice.
pub proof fn lemma_rank_within_team(dice: Seq<DiceState>, i: int, count: int)
    requires
        0 <= i < dice.len(),
        0 <= count <= dice.len(),
        dice[i].alive(),
    ensures
        ahead(dice, i, count) <= team_size(dice, first_side(dice[i]), count),
        count > i ==> ahead(dice, i, count) < team_size(dice, first_side(dice[i]), count),
        team_size(dice, first_side(dice[i]), count) <= count,
    decreases count,
{
    if count > 0 {
        lemma_rank_within_team(dice, i, count - 1);
    }
}

/// Of two living dice of a team the one that stands before the other has
/// the lower rank.
pub proof fn lemma_rank_follows_order(dice: Seq<DiceState>, i: int, j: int, count: int)
    requires
        0 <= i < dice.len(),
        0 <= j < dice.len(),
        0 <= count <= dice.len(),
        stands_before(dice, i, j),
    ensures
        ahead(dice, i, count) <= ahead(dice, j, count),
        count > i ==> ahead(dice, i, count) < ahead(dice, j, count),
    decreases count,
{
    if count > 0 {
        lemma_rank_follows_order(dice, i, j, count - 1);
    }
}

/// Two different living dice of a team have different ranks.
pub proof fn lemma_ranks_differ(dice: Seq<DiceState>, i: int, j: int)
    requires
        0 <= i < dice.len(),
        0 <= j < dice.len(),
        i != j,
        dice[i].alive(),
        dice[j].alive(),
        first_side(dice[i]) == first_side(dice[j]),
    ensures
        rank(dice, i) != rank(dice, j),
{
    if stands_before(dice, i, j) {
        lemma_rank_follows_order(dice, i, j, dice.len() as int);
    } else {
        assert(stands_before(dice, j, i));
        lemma_rank_follows_order(dice, j, i, dice.len() as int);
    }
}

/// Along a row the dice lie from left to right: a die of lower rank has
/// not come to rest further right than a teammate of higher rank.
pub proof fn lemma_row_runs_left_to_right(dice: Seq<DiceState>, i: int, j: int)
    requires
        0 <= i < dice.len(),
        0 <= j < dice.len(),
        dice[i].alive(),
        dice[j].alive(),
        first_side(dice[i]) == first_side(dice[j]),
        rank(dice, i) < rank(dice, j),
    ensures
        dice[i].x <= dice[j].x,
{
    if dice[i].x > dice[j].x {
        assert(stands_before(dice, j, i));
        lemma_rank_follows_order(dice, j, i, dice.len() as int);
    }
}

/// The die with its row position set to its rank, if it is alive.
pub open spec fn ranked(dice: Seq<DiceState>, i: int) -> DiceState {
    if dice[i].alive() {
        DiceState {
            dice: Dice { id: dice[i].dice.id, row_position: rank(dice, i) as usize },
            ..dice[i]
        }
    } else {
        dice[i]
    }
}

/// Whether `row` lists the living dice of one side, each at its rank.
pub open spec fn is_row(dice: Seq<DiceState>, first: bool, row: Seq<DiceID>) -> bool {
    &&& row.len() == team_size(dice, first, dice.len() as int)
    &&& forall|i: int|
        0 <= i < dice.len() && (#[trigger] dice[i]).alive() && first_side(dice[i]) == first
            ==> rank(dice, i) < row.len() && row[rank(dice, i) as int] == dice[i].dice.id
}

/// How many of the dice stand before die `i` in its row.
fn rank_of(dice: &Vec<DiceState>, i: usize) -> (r: usize)
    requires
        i < dice@.len(),
    ensures
        r == rank(dice@, i as int),
{
    let die = dice[i];
    let mut r: usize = 0;
    let mut j: usize = 0;
    while j < dice.len()
        invariant
            j <= dice@.len(),
            i < dice@.len(),
            die == dice@[i as int],
            r == ahead(dice@, i as int, j as int),
            r <= j,
        decreases dice@.len() - j,
    {
        let other = dice[j];
        if other.is_alive() && (other.dice.id.team_id == 0) == (die.dice.id.team_id == 0) && (
        other.x < die.x || (other.x == die.x && j < i)) {
            r += 1;
        }
        j += 1;
    }
    r
}

/// A row of as many places as the side has living dice.
fn empty_row(dice: &Vec<DiceState>, first: bool) -> (row: Vec<DiceID>)
    ensures
        row@.len() == team_size(dice@, first, dice@.len() as int),
{
    let mut row: Vec<DiceID> = Vec::new();
    let mut j: usize = 0;
    while j < dice.len()
        invariant
            j <= dice@.len(),
            row@.len() == team_size(dice@, first, j as int),
        decreases dice@.len() - j,
    {
        if dice[j].is_alive() && (dice[j].dice.id.team_id == 0) == first {
            row.push(dice[j].dice.id);
        }
        j += 1;
    }
    row
}

/// Lines the living dice of each team up from left to right, by where they
/// have come to rest, and tells each die its place in the row. Dice that
/// rest equally far left keep the order they have in the battle.
pub fn compute_row_positions(battle: &mut Battle) -> (rows: Rows)
    requires
        old(battle).wf(),
    ensures
        final(battle).wf(),
        final(battle)@.len() == old(battle)@.len(),
        forall|i: int|
            0 <= i < old(battle)@.len() ==> #[trigger] final(battle)@[i] == ranked(
                old(battle)@,
                i,
            ),
        is_row(old(battle)@, true, rows.team1@),
        is_row(old(battle)@, false, rows.team2@),
{
    let dice = battle.dice();
    let mut team1 = empty_row(&dice, true);
    let mut team2 = empty_row(&dice, false);
    let mut i: usize = 0;
    while i < dice.len()
        invariant
            battle.wf(),
            dice@ == old(battle)@,
            i <= dice@.len(),
            battle@.len() == dice@.len(),
            team1@.len() == team_size(dice@, true, dice@.len() as int),
            team2@.len() == team_size(dice@, false, dice@.len() as int),
            forall|j: int| 0 <= j < i ==> #[trigger] battle@[j] == ranked(dice@, j),
            forall|j: int| i <= j < dice@.len() ==> #[trigger] battle@[j] == dice@[j],
            forall|j: int|
                0 <= j < i && (#[trigger] dice@[j]).alive() && first_side(dice@[j]) ==> rank(
                    dice@,
                    j,
                ) < team1@.len() && team1@[rank(dice@, j) as int] == dice@[j].dice.id,
            forall|j: int|
                0 <= j < i && (#[trigger] dice@[j]).alive() && !first_side(dice@[j]) ==> rank(
                    dice@,
                    j,
                ) < team2@.len() && team2@[rank(dice@, j) as int] == dice@[j].dice.id,
        decreases dice@.len() - i,
    {
        let mut die = dice[i];
        if die.is_alive() {
            let r = rank_of(&dice, i);
            proof {
                lemma_rank_within_team(dice@, i as int, dice@.len() as int);
                assert forall|j: int|
                    0 <= j < i && (#[trigger] dice@[j]).alive() && first_side(dice@[j])
                        == first_side(dice@[i as int]) implies rank(dice@, j) != r by {
                    lemma_ranks_differ(dice@, j, i as int);
                }
            }
            die.dice.set_row_position(r);
            battle.replace(i, die);
            if die.dice.id.team_id == 0 {
                team1.set(r, die.dice.id);
            } else {
                team2.set(r, die.dice.id);
            }
        }
        i += 1;
    }
    Rows { team1, team2 }
}

/// The place of the living die named `dice_id`.
pub open spec fn place_of(dice: Seq<DiceState>, dice_id: DiceID) -> int {
    choose|i: int| 0 <= i < dice.len() && (#[trigger] dice[i]).dice.id == dice_id && dice[i].alive()
}

/// What the living die named `dice_id` resolves: the face it has landed on.
pub open spec fn context_of(dice: Seq<DiceState>, dice_id: DiceID) -> ResolutionContext {
    ResolutionContext { face: dice[place_of(dice, dice_id)].landed(), dice_id }
}

/// Resolves the face that a die has landed on. A die that is not alive
/// resolves nothing and is reported as out of reach.
pub fn resolve_dice(battle: &mut Battle, dice_id: DiceID) -> (result: Result<
    Vec<Option<DiceID>>,
    AccessError,
>)
    requires
        old(battle).wf(),
    ensures
        final(battle).wf(),
        result is Err <==> !has_living(old(battle)@, dice_id),
        result is Err ==> final(battle)@ == old(battle)@,
        result matches Ok(targets) ==> ({
            let context = context_of(old(battle)@, dice_id);
            &&& targets@.len() == context.face.background.repeat_count()
            &&& valid_choices(old(battle)@, context, targets@)
            &&& final(battle)@ == played(old(battle)@, context, targets@)
        }),
{
    match battle.find(dice_id) {
        Some(i) => {
            let die = battle.at(i);
            let face = die.faces[die.face_up];
            proof {
                let p = place_of(battle@, dice_id);
                assert(battle@[p].dice.id == battle@[i as int].dice.id);
                assert(p == i);
            }
            resolve(battle, ResolutionContext { face, dice_id })
        },
        None => Err(AccessError::InvalidDiceID),
    }
}

/// What came of one die's turn in a round.
#[derive(Debug, PartialEq, Eq)]
pub struct Turn {
    pub dice_id: DiceID,
    /// The dice that the resolutions of the face were aimed at, or why the
    /// die did not act.
    pub outcome: Result<Vec<Option<DiceID>>, AccessError>,
}

/// The dice after a turn has been played on them.
pub open spec fn turn_played(dice: Seq<DiceState>, turn: Turn) -> Seq<DiceState> {
    match turn.outcome {
        Ok(targets) => played(dice, context_of(dice, turn.dice_id), targets@),
        Err(_) => dice,
    }
}

/// Whether the turn can have come of the die on these dice: a die that is
/// not alive has not acted, a living die has resolved its face as often as
/// the background says, each time with a valid choice of target.
pub open spec fn turn_valid(dice: Seq<DiceState>, turn: Turn) -> bool {
    &&& turn.outcome is Err <==> !has_living(dice, turn.dice_id)
    &&& turn.outcome matches Ok(targets) ==> {
        let context = context_of(dice, turn.dice_id);
        &&& targets@.len() == context.face.background.repeat_count()
        &&& valid_choices(dice, context, targets@)
    }
}

/// The dice after the turns have been played, one after the other.
pub open spec fn turns_played(dice: Seq<DiceState>, turns: Seq<Turn>) -> Seq<DiceState>
    decreases turns.len(),
{
    if turns.len() == 0 {
        dice
    } else {
        turn_played(turns_played(dice, turns.drop_last()), turns.last())
    }
}

/// Whether each turn is valid on the dice as the turns before it have left
/// them.
pub open spec fn turns_valid(dice: Seq<DiceState>, turns: Seq<Turn>) -> bool {
    forall|k: int|
        0 <= k < turns.len() ==> turn_valid(turns_played(dice, turns.take(k)), #[trigger] turns[k])
}

/// The dice that take the turn of place `k` in the rows: the first team's,
/// then the second's.
pub open spec fn pair_at(team1: Seq<DiceID>, team2: Seq<DiceID>, k: int) -> Seq<DiceID> {
    (if k < team1.len() {
        seq![team1[k]]
    } else {
        Seq::empty()
    }) + (if k < team2.len() {
        seq![team2[k]]
    } else {
        Seq::empty()
    })
}

/// The order of the turns of the first `count` places of the rows.
pub open spec fn interleaved(team1: Seq<DiceID>, team2: Seq<DiceID>, count: int) -> Seq<DiceID>
    decreases count,
{
    if count <= 0 {
        Seq::empty()
    } else {
        interleaved(team1, team2, count - 1) + pair_at(team1, team2, count - 1)
    }
}

/// The order in which the dice of a round take their turns: place by place
/// along the rows, at each place the first team's die before the second's.
pub open spec fn resolution_order(team1: Seq<DiceID>, team2: Seq<DiceID>) -> Seq<DiceID> {
    interleaved(
        team1,
        team2,
        if team1.len() >= team2.len() {
            team1.len() as int
        } else {
            team2.len() as int
        },
    )
}

/// Where the dice of the rows stand in the order of the turns: the die at
/// place `k` of a row comes after the `k` dice before it in its own row and
/// after the dice of the other row at the places before `k`, the first
/// team's die at place `k` included for the second team's.
pub proof fn lemma_turn_places(team1: Seq<DiceID>, team2: Seq<DiceID>, k: int)
    requires
        0 <= k,
    ensures
        resolution_order(team1, team2).len() == team1.len() + team2.len(),
        k < team1.len() ==> resolution_order(team1, team2)[k + if k <= team2.len() {
            k
        } else {
            team2.len() as int
        }] == team1[k],
        k < team2.len() ==> resolution_order(team1, team2)[k + if k + 1 <= team1.len() {
            k + 1
        } else {
            team1.len() as int
        }] == team2[k],
{
    let places = if team1.len() >= team2.len() {
        team1.len() as int
    } else {
        team2.len() as int
    };
    lemma_interleaved(team1, team2, places, k);
}

/// The length of the order of the first `count` places, and where the dice
/// at place `k` stand in it.
proof fn lemma_interleaved(team1: Seq<DiceID>, team2: Seq<DiceID>, count: int, k: int)
    requires
        0 <= k,
        0 <= count,
    ensures
        interleaved(team1, team2, count).len() == (if count <= team1.len() {
            count
        } else {
            team1.len() as int
        }) + (if count <= team2.len() {
            count
        } else {
            team2.len() as int
        }),
        k < count && k < team1.len() ==> interleaved(team1, team2, count)[k + if k <= team2.len() {
            k
        } else {
            team2.len() as int
        }] == team1[k],
        k < count && k < team2.len() ==> interleaved(team1, team2, count)[k + if k + 1
            <= team1.len() {
            k + 1
        } else {
            team1.len() as int
        }] == team2[k],
    decreases count,
{
    if count > 0 {
        lemma_interleaved(team1, team2, count - 1, k);
        lemma_interleaved(team1, team2, count - 1, count - 1);
    }
}

/// The dice whose turns these are.
pub open spec fn turn_ids(turns: Seq<Turn>) -> Seq<DiceID> {
    turns.map_values(|t: Turn| t.dice_id)
}

/// One more valid turn keeps the turns valid.
proof fn lemma_turn_added(dice: Seq<DiceState>, before: Seq<Turn>, turn: Turn)
    requires
        turns_valid(dice, before),
        turn_valid(turns_played(dice, before), turn),
    ensures
        turns_valid(dice, before.push(turn)),
        turns_played(dice, before.push(turn)) == turn_played(turns_played(dice, before), turn),
        turn_ids(before.push(turn)) == turn_ids(before).push(turn.dice_id),
{
    let after = before.push(turn);
    assert(after.drop_last() =~= before);
    assert forall|k: int| 0 <= k < after.len() implies turn_valid(
        turns_played(dice, after.take(k)),
        #[trigger] after[k],
    ) by {
        if k < before.len() {
            assert(after.take(k) =~= before.take(k));
        } else {
            assert(after.take(k) =~= before);
        }
    }
    assert(turn_ids(after) =~= turn_ids(before).push(turn.dice_id));
}

/// Lets one die take its turn and notes what came of it.
fn take_turn(battle: &mut Battle, dice_id: DiceID, turns: &mut Vec<Turn>, Ghost(start): Ghost<
    Seq<DiceState>,
>)
    requires
        old(battle).wf(),
        turns_valid(start, old(turns)@),
        old(battle)@ == turns_played(start, old(turns)@),
    ensures
        final(battle).wf(),
        turns_valid(start, final(turns)@),
        final(battle)@ == turns_played(start, final(turns)@),
        turn_ids(final(turns)@) == turn_ids(old(turns)@).push(dice_id),
{
    let turn = play_turn(battle, dice_id);
    proof {
        lemma_turn_added(start, turns@, turn);
    }
    turns.push(turn);
}

/// Lets one die take its turn and returns what came of it.
pub fn play_turn(battle: &mut Battle, dice_id: DiceID) -> (turn: Turn)
    requires
        old(battle).wf(),
    ensures
        final(battle).wf(),
        turn.dice_id == dice_id,
        turn_valid(old(battle)@, turn),
        final(battle)@ == turn_played(old(battle)@, turn),
{
    let outcome = resolve_dice(battle, dice_id);
    Turn { dice_id, outcome }
}

/// The order in which the dice of the rows take their turns.
pub fn turn_order(rows: &Rows) -> (order: Vec<DiceID>)
    ensures
        order@ == resolution_order(rows.team1@, rows.team2@),
{
    let places = if rows.team1.len() >= rows.team2.len() {
        rows.team1.len()
    } else {
        rows.team2.len()
    };
    let mut order: Vec<DiceID> = Vec::new();
    let mut i: usize = 0;
    while i < places
        invariant
            i <= places,
            order@ == interleaved(rows.team1@, rows.team2@, i as int),
        decreases places - i,
    {
        let ghost before = order@;
        if rows.team1.len() > i {
            order.push(rows.team1[i]);
        }
        if rows.team2.len() > i {
            order.push(rows.team2[i]);
        }
        assert(order@ =~= before + pair_at(rows.team1@, rows.team2@, i as int));
        i += 1;
    }
    order
}

/// Resolves the dice of a round in row order: place by place, the first
/// team's die before the second's, each turn complete before the next
/// begins. A die that has died before its turn is passed over.
pub fn resolve_dices(battle: &mut Battle, rows: &Rows) -> (turns: Vec<Turn>)
    requires
        old(battle).wf(),
    ensures
        final(battle).wf(),
        turn_ids(turns@) == resolution_order(rows.team1@, rows.team2@),
        turns_valid(old(battle)@, turns@),
        final(battle)@ == turns_played(old(battle)@, turns@),
{
    let places = if rows.team1.len() >= rows.team2.len() {
        rows.team1.len()
    } else {
        rows.team2.len()
    };
    let ghost start = battle@;
    let mut turns: Vec<Turn> = Vec::new();
    assert(turn_ids(turns@) =~= Seq::<DiceID>::empty());
    let mut i: usize = 0;
    while i < places
        invariant
            battle.wf(),
            i <= places,
            start == old(battle)@,
            turns_valid(start, turns@),
            battle@ == turns_played(start, turns@),
            turn_ids(turns@) == interleaved(rows.team1@, rows.team2@, i as int),
        decreases places - i,
    {
        let ghost before = turn_ids(turns@);
        if rows.team1.len() > i {
            take_turn(battle, rows.team1[i], &mut turns, Ghost(start));
        }
        if rows.team2.len() > i {
            take_turn(battle, rows.team2[i], &mut turns, Ghost(start));
        }
        assert(turn_ids(turns@) =~= before + pair_at(rows.team1@, rows.team2@, i as int));
        i += 1;
    }
    turns
}

} // verus!
