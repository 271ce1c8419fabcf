//! Target selection: which die an action is aimed at.
//!
//! Only living dice can be selected. Among the dice that qualify the choice
//! is random and even; selecting the best keeps those that share the highest
//! score and draws among them.

use crate::battle::{distinct_ids, Battle};
use crate::dice_instance::{Dice, DiceID, DiceState, Health};
use crate::face::{FaceBackground, FacePrototype};
use rand::seq::SliceRandom;
use rand::thread_rng;
use vstd::prelude::*;

verus! {

/// The face that is being resolved and the die it belongs to.
#[derive(Clone, Copy, Debug, PartialEq, Eq)]
pub struct ResolutionContext {
    pub face: FacePrototype,
    pub dice_id: DiceID,
}

/// Draws one of the candidates by `rand::seq::SliceRandom::choose`, with the
/// generator that `rand::thread_rng` hands out.
///
/// Taken on trust, as `rand` documents it: `choose` returns nothing for an
/// empty slice and otherwise a reference to one of the slice's elements.
/// Which element is drawn, and how evenly, is left open here.
#[verifier::external_body]
fn random_element(candidates: &Vec<DiceID>) -> (drawn: Option<DiceID>)
    ensures
        drawn is None <==> candidates@.len() == 0,
        drawn matches Some(id) ==> candidates@.contains(id),
{
    let mut rng = thread_rng();
    candidates.choose(&mut rng).copied()
}

/// Draws one of the candidates, or nothing where there is none.
pub fn select_from(candidates: &Vec<DiceID>) -> (drawn: Option<DiceID>)
    ensures
        drawn is None <==> candidates@.len() == 0,
        drawn matches Some(id) ==> candidates@.contains(id),
{
    if candidates.len() == 0 {
        None
    } else {
        random_element(candidates)
    }
}

/// Whether one of the first `count` dice is alive, carries the name and
/// has passed the filter.
pub open spec fn passed<F: Fn(&Dice) -> bool>(
    dice: Seq<DiceState>,
    filter: F,
    count: int,
    id: DiceID,
) -> bool {
    exists|j: int|
        0 <= j < count && j < dice.len() && (#[trigger] dice[j]).alive() && dice[j].dice.id == id
            && call_ensures(filter, (&dice[j].dice,), true)
}

/// Whether the filter has turned away every living die among the first
/// `count`.
pub open spec fn all_turned_away<F: Fn(&Dice) -> bool>(
    dice: Seq<DiceState>,
    filter: F,
    count: int,
) -> bool {
    forall|j: int|
        0 <= j < count && j < dice.len() && (#[trigger] dice[j]).alive() ==> call_ensures(
            filter,
            (&dice[j].dice,),
            false,
        )
}

/// Whether one of the first `count` dice is alive, carries the name, has
/// passed the filter and was given the score `best`.
pub open spec fn passed_with<F: Fn(&Dice) -> bool, G: Fn(&Health) -> i64>(
    dice: Seq<DiceState>,
    filter: F,
    score: G,
    count: int,
    id: DiceID,
    best: i64,
) -> bool {
    exists|j: int|
        0 <= j < count && j < dice.len() && (#[trigger] dice[j]).alive() && dice[j].dice.id == id
            && call_ensures(filter, (&dice[j].dice,), true) && call_ensures(
            score,
            (&dice[j].health,),
            best,
        )
}

/// Whether none of the first `count` dice can have beaten the score `best`:
/// each of them is dead, was turned away by the filter, or scored no more
/// than `best`.
pub open spec fn outscored<F: Fn(&Dice) -> bool, G: Fn(&Health) -> i64>(
    dice: Seq<DiceState>,
    filter: F,
    score: G,
    count: int,
    best: i64,
) -> bool {
    forall|j: int|
        0 <= j < count && j < dice.len() && (#[trigger] dice[j]).alive() ==> call_ensures(
            filter,
            (&dice[j].dice,),
            false,
        ) || scored_at_most(score, dice[j].health, best)
}

/// Whether the score of this health was seen to be no more than `best`.
pub open spec fn scored_at_most<G: Fn(&Health) -> i64>(score: G, health: Health, best: i64) -> bool {
    exists|s: i64| s <= best && #[trigger] call_ensures(score, (&health,), s)
}

/// Whether every living die among the first `count` was either turned away
/// by the filter or stands in the list.
pub open spec fn all_considered<F: Fn(&Dice) -> bool>(
    dice: Seq<DiceState>,
    filter: F,
    count: int,
    list: Seq<DiceID>,
) -> bool {
    forall|j: int|
        0 <= j < count && j < dice.len() && (#[trigger] dice[j]).alive() ==> call_ensures(
            filter,
            (&dice[j].dice,),
            false,
        ) || list.contains(dice[j].dice.id)
}

/// Whether the score of this health was seen to be less than `best`.
pub open spec fn scored_below<G: Fn(&Health) -> i64>(score: G, health: Health, best: i64) -> bool {
    exists|s: i64| s < best && #[trigger] call_ensures(score, (&health,), s)
}

/// Whether every living die among the first `count` was turned away by the
/// filter, scored less than `best`, or stands in the list.
pub open spec fn all_ranked<F: Fn(&Dice) -> bool, G: Fn(&Health) -> i64>(
    dice: Seq<DiceState>,
    filter: F,
    score: G,
    count: int,
    list: Seq<DiceID>,
    best: i64,
) -> bool {
    forall|j: int|
        0 <= j < count && j < dice.len() && (#[trigger] dice[j]).alive() ==> call_ensures(
            filter,
            (&dice[j].dice,),
            false,
        ) || scored_below(score, dice[j].health, best) || list.contains(dice[j].dice.id)
}

/// Whether the list holds the dice that share the score `best`, the highest
/// among the first `count` dice: each die in it has passed the filter with
/// that score, and every living die outside it was turned away or scored
/// less.
pub open spec fn is_best_list<F: Fn(&Dice) -> bool, G: Fn(&Health) -> i64>(
    dice: Seq<DiceState>,
    filter: F,
    score: G,
    count: int,
    list: Seq<DiceID>,
    best: i64,
) -> bool {
    &&& forall|k: int|
        0 <= k < list.len() ==> passed_with(dice, filter, score, count, #[trigger] list[k], best)
    &&& outscored(dice, filter, score, count, best)
    &&& all_ranked(dice, filter, score, count, list, best)
}

/// The living dice that pass the filter, each of them once where the dice
/// carry distinct names.
pub fn filtered_candidates<F: Fn(&Dice) -> bool>(battle: &Battle, filter: F) -> (candidates: Vec<
    DiceID,
>)
    requires
        forall|i: int| 0 <= i < battle@.len() ==> call_requires(filter, (&battle@[i].dice,)),
    ensures
        forall|k: int|
            0 <= k < candidates@.len() ==> passed(
                battle@,
                filter,
                battle@.len() as int,
                #[trigger] candidates@[k],
            ),
        all_considered(battle@, filter, battle@.len() as int, candidates@),
        distinct_ids(battle@) ==> candidates@.no_duplicates(),
{
    let mut filtered_dices: Vec<DiceID> = Vec::new();
    let mut i: usize = 0;
    while i < battle.len()
        invariant
            i <= battle@.len(),
            forall|j: int| 0 <= j < battle@.len() ==> call_requires(filter, (&battle@[j].dice,)),
            forall|k: int|
                0 <= k < filtered_dices@.len() ==> passed(
                    battle@,
                    filter,
                    i as int,
                    #[trigger] filtered_dices@[k],
                ),
            all_considered(battle@, filter, i as int, filtered_dices@),
            distinct_ids(battle@) ==> filtered_dices@.no_duplicates(),
        decreases battle@.len() - i,
    {
        let die = battle.at(i);
        let ghost before = filtered_dices@;
        if die.is_alive() {
            let passes = filter(&die.dice);
            if passes {
                proof {
                    lemma_not_listed(battle@, filter, i as int, before);
                }
                filtered_dices.push(die.dice.id);
                assert(battle@[i as int].alive());
                assert(passed(battle@, filter, i + 1, die.dice.id));
                assert(filtered_dices@[before.len() as int] == die.dice.id);
            }
        }
        assert forall|k: int| 0 <= k < filtered_dices@.len() implies passed(
            battle@,
            filter,
            i + 1,
            #[trigger] filtered_dices@[k],
        ) by {
            if k < before.len() {
                assert(filtered_dices@[k] == before[k]);
                assert(passed(battle@, filter, i as int, before[k]));
            }
        }
        assert forall|j: int|
            0 <= j < i + 1 && j < battle@.len() && (#[trigger] battle@[j]).alive() implies call_ensures(
            filter,
            (&battle@[j].dice,),
            false,
        ) || filtered_dices@.contains(battle@[j].dice.id) by {
            if j < i {
                if before.contains(battle@[j].dice.id) {
                    let k = choose|k: int| 0 <= k < before.len() && before[k] == battle@[j].dice.id;
                    assert(filtered_dices@[k] == battle@[j].dice.id);
                }
            }
        }
        i += 1;
    }
    filtered_dices
}

/// Among dice with distinct names, the die at place `i` is not in a list
/// that was gathered from the dice before it.
proof fn lemma_not_listed<F: Fn(&Dice) -> bool>(
    dice: Seq<DiceState>,
    filter: F,
    i: int,
    list: Seq<DiceID>,
)
    requires
        0 <= i < dice.len(),
        forall|k: int| 0 <= k < list.len() ==> passed(dice, filter, i, #[trigger] list[k]),
        distinct_ids(dice) ==> list.no_duplicates(),
    ensures
        distinct_ids(dice) ==> list.push(dice[i].dice.id).no_duplicates(),
{
    if distinct_ids(dice) {
        let after = list.push(dice[i].dice.id);
        assert forall|a: int, b: int| 0 <= a < after.len() && 0 <= b < after.len() && a != b implies after[a]
            != after[b] by {
            if a < list.len() && b < list.len() {
                assert(list[a] != list[b]);
            } else {
                let k = if a < list.len() {
                    a
                } else {
                    b
                };
                assert(passed(dice, filter, i, list[k]));
                let j = choose|j: int|
                    0 <= j < i && j < dice.len() && (#[trigger] dice[j]).alive() && dice[j].dice.id
                        == list[k] && call_ensures(filter, (&dice[j].dice,), true);
                assert(dice[j].dice.id != dice[i].dice.id);
            }
        }
    }
}

/// Selects at random one of the living dice that pass the filter.
pub fn select_random<F: Fn(&Dice) -> bool>(battle: &Battle, filter: F) -> (target: Option<DiceID>)
    requires
        forall|i: int| 0 <= i < battle@.len() ==> call_requires(filter, (&battle@[i].dice,)),
    ensures
        target matches Some(id) ==> passed(battle@, filter, battle@.len() as int, id),
        target is None ==> all_turned_away(battle@, filter, battle@.len() as int),
{
    let filtered_dices = filtered_candidates(battle, filter);
    let target = select_from(&filtered_dices);
    proof {
        if let Some(id) = target {
            let k = choose|k: int| 0 <= k < filtered_dices@.len() && filtered_dices@[k] == id;
            assert(filtered_dices@[k] == id);
        } else {
            assert forall|j: int|
                0 <= j < battle@.len() && (#[trigger] battle@[j]).alive() implies call_ensures(
                filter,
                (&battle@[j].dice,),
                false,
            ) by {
                assert(!filtered_dices@.contains(battle@[j].dice.id));
            }
        }
    }
    target
}

/// The living dice that pass the filter and share the highest score of all
/// that pass it, each of them once where the dice carry distinct names.
pub fn best_candidates<F: Fn(&Dice) -> bool, G: Fn(&Health) -> i64>(
    battle: &Battle,
    filter: F,
    score: G,
) -> (candidates: Vec<DiceID>)
    requires
        forall|i: int| 0 <= i < battle@.len() ==> call_requires(filter, (&battle@[i].dice,)),
        forall|i: int| 0 <= i < battle@.len() ==> call_requires(score, (&battle@[i].health,)),
    ensures
        candidates@.len() > 0 ==> exists|best: i64|
            #[trigger] is_best_list(
                battle@,
                filter,
                score,
                battle@.len() as int,
                candidates@,
                best,
            ),
        candidates@.len() == 0 ==> all_turned_away(battle@, filter, battle@.len() as int),
        distinct_ids(battle@) ==> candidates@.no_duplicates(),
{
    let mut best_dices: Vec<DiceID> = Vec::new();
    let mut best_score: Option<i64> = None;
    let mut i: usize = 0;
    while i < battle.len()
        invariant
            i <= battle@.len(),
            forall|j: int| 0 <= j < battle@.len() ==> call_requires(filter, (&battle@[j].dice,)),
            forall|j: int| 0 <= j < battle@.len() ==> call_requires(score, (&battle@[j].health,)),
            best_score is None <==> best_dices@.len() == 0,
            best_score is Some ==> is_best_list(
                battle@,
                filter,
                score,
                i as int,
                best_dices@,
                best_score->0,
            ),
            best_score is None ==> all_turned_away(battle@, filter, i as int),
            distinct_ids(battle@) ==> best_dices@.no_duplicates(),
        decreases battle@.len() - i,
    {
        let die = battle.at(i);
        let ghost before = best_dices@;
        let ghost score_before = best_score;
        let mut listed = false;
        let mut current: i64 = 0;
        let mut cleared = false;
        if die.is_alive() {
            if filter(&die.dice) {
                let current_score = score(&die.health);
                current = current_score;
                let better = match best_score {
                    None => true,
                    Some(best) => current_score > best,
                };
                assert(battle@[i as int].alive());
                assert(scored_at_most(score, battle@[i as int].health, current_score));
                if better {
                    best_score = Some(current_score);
                    best_dices.clear();
                    best_dices.push(die.dice.id);
                    listed = true;
                    cleared = true;
                } else if best_score == Some(current_score) {
                    proof {
                        lemma_not_in_best(battle@, filter, score, i as int, before, current_score);
                    }
                    best_dices.push(die.dice.id);
                    listed = true;
                } else {
                    assert(scored_below(score, battle@[i as int].health, best_score->0));
                }
            }
        }
        proof {
            if best_score is Some {
                let best = best_score->0;
                if cleared {
                    assert(best_dices@ =~= seq![battle@[i as int].dice.id]);
                    assert(best_dices@[0] == battle@[i as int].dice.id);
                    assert(passed_with(battle@, filter, score, i + 1, best_dices@[0], best));
                    assert forall|j: int|
                        0 <= j < i + 1 && j < battle@.len() && (#[trigger] battle@[j]).alive() implies call_ensures(
                        filter,
                        (&battle@[j].dice,),
                        false,
                    ) || scored_below(score, battle@[j].health, best) || best_dices@.contains(
                        battle@[j].dice.id,
                    ) by {
                        if j < i && score_before is Some {
                            if !call_ensures(filter, (&battle@[j].dice,), false) {
                                assert(scored_at_most(score, battle@[j].health, score_before->0));
                                let s = choose|s: i64|
                                    s <= score_before->0 && #[trigger] call_ensures(
                                        score,
                                        (&battle@[j].health,),
                                        s,
                                    );
                                assert(s < best);
                            }
                        }
                    }
                    assert forall|j: int|
                        0 <= j < i + 1 && j < battle@.len() && (#[trigger] battle@[j]).alive() implies call_ensures(
                        filter,
                        (&battle@[j].dice,),
                        false,
                    ) || scored_at_most(score, battle@[j].health, best) by {
                        if j < i && score_before is Some {
                            if !call_ensures(filter, (&battle@[j].dice,), false) {
                                assert(scored_at_most(score, battle@[j].health, score_before->0));
                                let s = choose|s: i64|
                                    s <= score_before->0 && #[trigger] call_ensures(
                                        score,
                                        (&battle@[j].health,),
                                        s,
                                    );
                                assert(s <= best);
                            }
                        }
                    }
                } else {
                    assert forall|k: int| 0 <= k < best_dices@.len() implies passed_with(
                        battle@,
                        filter,
                        score,
                        i + 1,
                        #[trigger] best_dices@[k],
                        best,
                    ) by {
                        if k < before.len() {
                            assert(best_dices@[k] == before[k]);
                            assert(passed_with(battle@, filter, score, i as int, before[k], best));
                        } else {
                            assert(listed);
                            assert(best_dices@[k] == battle@[i as int].dice.id);
                            assert(call_ensures(score, (&battle@[i as int].health,), current));
                        }
                    }
                    assert forall|j: int|
                        0 <= j < i + 1 && j < battle@.len() && (#[trigger] battle@[j]).alive() implies call_ensures(
                        filter,
                        (&battle@[j].dice,),
                        false,
                    ) || scored_below(score, battle@[j].health, best) || best_dices@.contains(
                        battle@[j].dice.id,
                    ) by {
                        if j < i {
                            if before.contains(battle@[j].dice.id) {
                                let k = choose|k: int|
                                    0 <= k < before.len() && before[k] == battle@[j].dice.id;
                                assert(best_dices@[k] == battle@[j].dice.id);
                            }
                        } else if listed {
                            assert(best_dices@[before.len() as int] == battle@[j].dice.id);
                        }
                    }
                }
            }
        }
        i += 1;
    }
    best_dices
}

/// Among dice with distinct names, the die at place `i` is not in a list of
/// the best that was gathered from the dice before it.
proof fn lemma_not_in_best<F: Fn(&Dice) -> bool, G: Fn(&Health) -> i64>(
    dice: Seq<DiceState>,
    filter: F,
    score: G,
    i: int,
    list: Seq<DiceID>,
    best: i64,
)
    requires
        0 <= i < dice.len(),
        forall|k: int|
            0 <= k < list.len() ==> passed_with(dice, filter, score, i, #[trigger] list[k], best),
        distinct_ids(dice) ==> list.no_duplicates(),
    ensures
        distinct_ids(dice) ==> list.push(dice[i].dice.id).no_duplicates(),
{
    if distinct_ids(dice) {
        let after = list.push(dice[i].dice.id);
        assert forall|a: int, b: int| 0 <= a < after.len() && 0 <= b < after.len() && a != b implies after[a]
            != after[b] by {
            if a < list.len() && b < list.len() {
                assert(list[a] != list[b]);
            } else {
                let k = if a < list.len() {
                    a
                } else {
                    b
                };
                assert(passed_with(dice, filter, score, i, list[k], best));
                let j = choose|j: int|
                    0 <= j < i && j < dice.len() && (#[trigger] dice[j]).alive() && dice[j].dice.id
                        == list[k] && call_ensures(filter, (&dice[j].dice,), true) && call_ensures(
                        score,
                        (&dice[j].health,),
                        best,
                    );
                assert(dice[j].dice.id != dice[i].dice.id);
            }
        }
    }
}

/// Selects at random among the living dice that pass the filter and share
/// the highest score of all that pass it.
pub fn select_random_best<F: Fn(&Dice) -> bool, G: Fn(&Health) -> i64>(
    battle: &Battle,
    filter: F,
    score: G,
) -> (target: Option<DiceID>)
    requires
        forall|i: int| 0 <= i < battle@.len() ==> call_requires(filter, (&battle@[i].dice,)),
        forall|i: int| 0 <= i < battle@.len() ==> call_requires(score, (&battle@[i].health,)),
    ensures
        target matches Some(id) ==> exists|best: i64|
            #[trigger] passed_with(battle@, filter, score, battle@.len() as int, id, best)
                && outscored(battle@, filter, score, battle@.len() as int, best),
        target is None ==> all_turned_away(battle@, filter, battle@.len() as int),
{
    let best_dices = best_candidates(battle, filter, score);
    let target = select_from(&best_dices);
    proof {
        if let Some(id) = target {
            let k = choose|k: int| 0 <= k < best_dices@.len() && best_dices@[k] == id;
            assert(best_dices@[k] == id);
            let best = choose|best: i64|
                #[trigger] is_best_list(
                    battle@,
                    filter,
                    score,
                    battle@.len() as int,
                    best_dices@,
                    best,
                );
            assert(passed_with(battle@, filter, score, battle@.len() as int, id, best));
        }
    }
    target
}

/// Whether one of the first `count` dice is alive, carries the name and was
/// given the score `best`.
pub open spec fn scored<G: Fn(&Dice) -> i64>(
    dice: Seq<DiceState>,
    score: G,
    count: int,
    id: DiceID,
    best: i64,
) -> bool {
    exists|j: int|
        0 <= j < count && j < dice.len() && (#[trigger] dice[j]).alive() && dice[j].dice.id == id
            && call_ensures(score, (&dice[j].dice,), best)
}

/// Whether each living die among the first `count` was seen to score no
/// more than `best`.
pub open spec fn none_above<G: Fn(&Dice) -> i64>(
    dice: Seq<DiceState>,
    score: G,
    count: int,
    best: i64,
) -> bool {
    forall|j: int|
        0 <= j < count && j < dice.len() && (#[trigger] dice[j]).alive() ==> exists|s: i64|
            s <= best && #[trigger] call_ensures(score, (&dice[j].dice,), s)
}

/// Whether none of the first `count` dice is alive.
pub open spec fn none_alive(dice: Seq<DiceState>, count: int) -> bool {
    forall|j: int| 0 <= j < count && j < dice.len() ==> !(#[trigger] dice[j]).alive()
}

/// Selects at random among the living dice that share the highest score.
pub fn select_best<G: Fn(&Dice) -> i64>(battle: &Battle, score: G) -> (target: Option<DiceID>)
    requires
        forall|i: int| 0 <= i < battle@.len() ==> call_requires(score, (&battle@[i].dice,)),
    ensures
        target matches Some(id) ==> exists|best: i64|
            #[trigger] scored(battle@, score, battle@.len() as int, id, best) && none_above(
                battle@,
                score,
                battle@.len() as int,
                best,
            ),
        target is None <==> none_alive(battle@, battle@.len() as int),
{
    let mut best_dices: Vec<DiceID> = Vec::new();
    let mut best_score: Option<i64> = None;
    let mut i: usize = 0;
    while i < battle.len()
        invariant
            i <= battle@.len(),
            forall|j: int| 0 <= j < battle@.len() ==> call_requires(score, (&battle@[j].dice,)),
            best_score is None <==> best_dices@.len() == 0,
            forall|k: int|
                0 <= k < best_dices@.len() ==> scored(
                    battle@,
                    score,
                    i as int,
                    #[trigger] best_dices@[k],
                    best_score->0,
                ),
            best_score is Some ==> none_above(battle@, score, i as int, best_score->0),
            best_score is None <==> none_alive(battle@, i as int),
        decreases battle@.len() - i,
    {
        let die = battle.at(i);
        let ghost before = best_dices@;
        let ghost score_before = best_score;
        if die.is_alive() {
            let current_score = score(&die.dice);
            let better = match best_score {
                None => true,
                Some(best) => current_score > best,
            };
            assert(battle@[i as int].alive());
            if better {
                best_score = Some(current_score);
                best_dices.clear();
                best_dices.push(die.dice.id);
                assert(scored(battle@, score, i + 1, die.dice.id, current_score));
                assert forall|j: int|
                    0 <= j < i + 1 && j < battle@.len() && (#[trigger] battle@[j]).alive() implies exists|
                    s: i64,
                |
                    s <= current_score && #[trigger] call_ensures(score, (&battle@[j].dice,), s) by {
                    if j < i {
                        let s = choose|s: i64|
                            s <= score_before->0 && #[trigger] call_ensures(
                                score,
                                (&battle@[j].dice,),
                                s,
                            );
                        assert(s <= current_score);
                    }
                }
            } else {
                if best_score == Some(current_score) {
                    best_dices.push(die.dice.id);
                    assert(scored(battle@, score, i + 1, die.dice.id, current_score));
                }
                assert forall|k: int| 0 <= k < best_dices@.len() implies scored(
                    battle@,
                    score,
                    i + 1,
                    #[trigger] best_dices@[k],
                    best_score->0,
                ) by {
                    if k < before.len() {
                        assert(best_dices@[k] == before[k]);
                        assert(scored(battle@, score, i as int, before[k], best_score->0));
                    }
                }
            }
        } else {
            assert forall|k: int| 0 <= k < best_dices@.len() implies scored(
                battle@,
                score,
                i + 1,
                #[trigger] best_dices@[k],
                best_score->0,
            ) by {
                assert(scored(battle@, score, i as int, before[k], best_score->0));
            }
        }
        i += 1;
    }
    let target = select_from(&best_dices);
    proof {
        if let Some(id) = target {
            let k = choose|k: int| 0 <= k < best_dices@.len() && best_dices@[k] == id;
            assert(best_dices@[k] == id);
            assert(scored(battle@, score, battle@.len() as int, id, best_score->0));
        }
    }
    target
}

/// Whether the die is a living die of the other team.
pub open spec fn is_enemy(context: ResolutionContext, die: DiceState) -> bool {
    die.alive() && die.dice.id.team_id != context.dice_id.team_id
}

/// Whether the die is a living die of the same team, and not the acting die
/// itself.
pub open spec fn is_ally(context: ResolutionContext, die: DiceState) -> bool {
    die.alive() && die.dice.id.team_id == context.dice_id.team_id && die.dice.id
        != context.dice_id
}

/// Whether an action of the face may be aimed at the die named `id`: the
/// die is wanted, and under a cruel background no wanted die has less
/// health than it.
pub open spec fn may_target(
    dice: Seq<DiceState>,
    wanted: spec_fn(DiceState) -> bool,
    face: FacePrototype,
    id: DiceID,
) -> bool {
    exists|i: int|
        0 <= i < dice.len() && wanted(#[trigger] dice[i]) && dice[i].dice.id == id && (
        face.background == FaceBackground::Cruel ==> weakest(dice, wanted, dice[i].health.current))
}

/// Whether no wanted die has less than `current` health.
pub open spec fn weakest(dice: Seq<DiceState>, wanted: spec_fn(DiceState) -> bool, current: u32) -> bool {
    forall|j: int| 0 <= j < dice.len() && wanted(#[trigger] dice[j]) ==> current <= dice[j].health.current
}

/// Whether no die is wanted.
pub open spec fn none_wanted(dice: Seq<DiceState>, wanted: spec_fn(DiceState) -> bool) -> bool {
    forall|j: int| 0 <= j < dice.len() ==> !wanted(#[trigger] dice[j])
}

/// Selects an enemy of the acting die at random: any living enemy, or
/// under a cruel background one of those with the lowest health.
pub fn select_enemy(battle: &Battle, context: ResolutionContext) -> (target: Option<DiceID>)
    ensures
        target matches Some(id) ==> may_target(
            battle@,
            |d: DiceState| is_enemy(context, d),
            context.face,
            id,
        ),
        target is None <==> none_wanted(battle@, |d: DiceState| is_enemy(context, d)),
{
    let team_id = context.dice_id.team_id;
    let filter = |dice: &Dice| -> (wanted: bool)
        ensures
            wanted == (dice.id.team_id != team_id),
        { dice.id().team_id != team_id };
    let ghost wanted = |d: DiceState| is_enemy(context, d);
    if context.face.background == FaceBackground::Cruel {
        let score = |health: &Health| -> (score: i64)
            ensures
                score == -(health.current as int),
            { -(health.current as i64) };
        let target = select_random_best(battle, filter, score);
        proof {
            lemma_best_is_weakest(battle@, filter, score, wanted, target);
        }
        return target;
    }
    let target = select_random(battle, filter);
    proof {
        lemma_random_is_wanted(battle@, filter, wanted, target);
    }
    target
}

/// Selects an ally of the acting die at random: any other living die of
/// its team, or under a cruel background one of those with the lowest
/// health.
pub fn select_ally(battle: &Battle, context: ResolutionContext) -> (target: Option<DiceID>)
    ensures
        target matches Some(id) ==> may_target(
            battle@,
            |d: DiceState| is_ally(context, d),
            context.face,
            id,
        ),
        target is None <==> none_wanted(battle@, |d: DiceState| is_ally(context, d)),
{
    let own_id = context.dice_id;
    let filter = |dice: &Dice| -> (wanted: bool)
        ensures
            wanted == (dice.id.team_id == own_id.team_id && dice.id != own_id),
        { dice.id().team_id == own_id.team_id && dice.id() != own_id };
    let ghost wanted = |d: DiceState| is_ally(context, d);
    if context.face.background == FaceBackground::Cruel {
        let score = |health: &Health| -> (score: i64)
            ensures
                score == -(health.current as int),
            { -(health.current as i64) };
        let target = select_random_best(battle, filter, score);
        proof {
            lemma_best_is_weakest(battle@, filter, score, wanted, target);
        }
        return target;
    }
    let target = select_random(battle, filter);
    proof {
        lemma_random_is_wanted(battle@, filter, wanted, target);
    }
    target
}

/// What a random selection returns when its filter decides exactly as
/// `wanted` does on living dice.
proof fn lemma_random_is_wanted<F: Fn(&Dice) -> bool>(
    dice: Seq<DiceState>,
    filter: F,
    wanted: spec_fn(DiceState) -> bool,
    target: Option<DiceID>,
)
    requires
        forall|d: DiceState, b: bool|
            d.alive() && call_ensures(filter, (&d.dice,), b) ==> b == wanted(d),
        forall|d: DiceState| wanted(d) ==> d.alive(),
        target matches Some(id) ==> passed(dice, filter, dice.len() as int, id),
        target is None ==> all_turned_away(dice, filter, dice.len() as int),
    ensures
        target matches Some(id) ==> exists|i: int|
            0 <= i < dice.len() && wanted(#[trigger] dice[i]) && dice[i].dice.id == id,
        target is None <==> none_wanted(dice, wanted),
{
    if let Some(id) = target {
        let j = choose|j: int|
            0 <= j < dice.len() && (#[trigger] dice[j]).alive() && dice[j].dice.id == id
                && call_ensures(filter, (&dice[j].dice,), true);
        assert(wanted(dice[j]));
    } else {
        assert forall|j: int| 0 <= j < dice.len() implies !wanted(#[trigger] dice[j]) by {
            if dice[j].alive() {
                assert(call_ensures(filter, (&dice[j].dice,), false));
            }
        }
    }
}

/// What a selection of the best returns when its filter decides exactly as
/// `wanted` does on living dice and the score is the health, negated.
proof fn lemma_best_is_weakest<F: Fn(&Dice) -> bool, G: Fn(&Health) -> i64>(
    dice: Seq<DiceState>,
    filter: F,
    score: G,
    wanted: spec_fn(DiceState) -> bool,
    target: Option<DiceID>,
)
    requires
        forall|d: DiceState, b: bool|
            d.alive() && call_ensures(filter, (&d.dice,), b) ==> b == wanted(d),
        forall|d: DiceState| wanted(d) ==> d.alive(),
        forall|h: Health, s: i64| call_ensures(score, (&h,), s) ==> s == -(h.current as int),
        target matches Some(id) ==> exists|best: i64|
            #[trigger] passed_with(dice, filter, score, dice.len() as int, id, best) && outscored(
                dice,
                filter,
                score,
                dice.len() as int,
                best,
            ),
        target is None ==> all_turned_away(dice, filter, dice.len() as int),
    ensures
        target matches Some(id) ==> exists|i: int|
            0 <= i < dice.len() && wanted(#[trigger] dice[i]) && dice[i].dice.id == id && weakest(
                dice,
                wanted,
                dice[i].health.current,
            ),
        target is None <==> none_wanted(dice, wanted),
{
    if let Some(id) = target {
        let best = choose|best: i64|
            #[trigger] passed_with(dice, filter, score, dice.len() as int, id, best) && outscored(
                dice,
                filter,
                score,
                dice.len() as int,
                best,
            );
        let i = choose|j: int|
            0 <= j < dice.len() && (#[trigger] dice[j]).alive() && dice[j].dice.id == id
                && call_ensures(filter, (&dice[j].dice,), true) && call_ensures(
                score,
                (&dice[j].health,),
                best,
            );
        assert(wanted(dice[i]));
        assert forall|j: int| 0 <= j < dice.len() && wanted(#[trigger] dice[j]) implies dice[i].health.current
            <= dice[j].health.current by {
            assert(dice[j].alive());
            assert(!call_ensures(filter, (&dice[j].dice,), false));
            assert(scored_at_most(score, dice[j].health, best));
        }
    } else {
        assert forall|j: int| 0 <= j < dice.len() implies !wanted(#[trigger] dice[j]) by {
            if dice[j].alive() {
                assert(call_ensures(filter, (&dice[j].dice,), false));
            }
        }
    }
}

} // verus!
