//! The stock faces that the dice templates are built from.

use crate::face::{Action, FaceBackground, FacePrototype};
use vstd::prelude::*;

verus! {

#[verifier::allow_in_spec]
pub fn empty() -> FacePrototype
    returns
        (FacePrototype { action: Action::Empty, pips: None, background: FaceBackground::Empty }),
{
    FacePrototype::new(Action::Empty, None)
}

#[verifier::allow_in_spec]
pub fn attack_weak() -> FacePrototype
    returns
        (FacePrototype { action: Action::Attack, pips: Some(1u32), background: FaceBackground::Empty }),
{
    FacePrototype::new(Action::Attack, Some(1))
}

#[verifier::allow_in_spec]
pub fn attack_double() -> FacePrototype
    returns
        (FacePrototype { action: Action::Attack, pips: Some(1u32), background: FaceBackground::Double }),
{
    FacePrototype::new(Action::Attack, Some(1)).with_background(FaceBackground::Double)
}

#[verifier::allow_in_spec]
pub fn attack_strong() -> FacePrototype
    returns
        (FacePrototype { action: Action::Attack, pips: Some(2u32), background: FaceBackground::Empty }),
{
    FacePrototype::new(Action::Attack, Some(2))
}

#[verifier::allow_in_spec]
pub fn attack_strong_cruel() -> FacePrototype
    returns
        (FacePrototype { action: Action::Attack, pips: Some(2u32), background: FaceBackground::Cruel }),
{
    FacePrototype::new(Action::Attack, Some(2)).with_background(FaceBackground::Cruel)
}

#[verifier::allow_in_spec]
pub fn defend() -> FacePrototype
    returns
        (FacePrototype { action: Action::Defend, pips: None, background: FaceBackground::Empty }),
{
    FacePrototype::new(Action::Defend, None)
}

#[verifier::allow_in_spec]
pub fn regen_weak() -> FacePrototype
    returns
        (FacePrototype { action: Action::Regenerate, pips: Some(1u32), background: FaceBackground::Empty }),
{
    FacePrototype::new(Action::Regenerate, Some(1))
}

#[verifier::allow_in_spec]
pub fn regen_strong() -> FacePrototype
    returns
        (FacePrototype { action: Action::Regenerate, pips: Some(2u32), background: FaceBackground::Empty }),
{
    FacePrototype::new(Action::Regenerate, Some(2))
}

#[verifier::allow_in_spec]
pub fn fire_weak() -> FacePrototype
    returns
        (FacePrototype { action: Action::Fire, pips: Some(1u32), background: FaceBackground::Empty }),
{
    FacePrototype::new(Action::Fire, Some(1))
}

#[verifier::allow_in_spec]
pub fn fire_strong() -> FacePrototype
    returns
        (FacePrototype { action: Action::Fire, pips: Some(2u32), background: FaceBackground::Empty }),
{
    FacePrototype::new(Action::Fire, Some(2))
}

#[verifier::allow_in_spec]
pub fn fiery() -> FacePrototype
    returns
        (FacePrototype { action: Action::Fiery, pips: None, background: FaceBackground::Empty }),
{
    FacePrototype::new(Action::Fiery, None)
}

} // verus!
