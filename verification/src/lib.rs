//! Turn resolution for a dice auto-battler.
//!
//! Two teams of dice fight in rounds. Every round each die is rolled, the
//! face it lands on is resolved against a target, and statuses and team
//! synergies react to the events that the round raises. The library holds
//! the rules and the state of a battle; rolling the dice and showing what
//! happens are left to the caller, who reports how the dice have settled and
//! is told what to do next.
//!
//! * [`face`], [`face_prototypes`], [`dice_template`]: what a die is made of.
//! * [`dice_instance`], [`battle`]: the dice of a battle and their health.
//! * [`status`], [`dispatch`], [`synergy`]: statuses of single dice and
//!   synergies of whole teams, and how their events wake them.
//! * [`select_targets`], [`interaction`], [`action`]: whom a face is aimed
//!   at and what it does.
//! * [`roll`], [`dice_collector`]: which side of a settled die lies up,
//!   where the dice stand in their rows, and how long a throw lasts.
//! * [`sequence`], [`campaign`]: the rounds of a battle as a state machine,
//!   and what a finished battle means for the game around it.
//! * [`events`], [`try_all`]: the events themselves, and a helper for joining
//!   results.
//!
//! Every function is verified against its contract. The one thing taken on
//! trust is the random draw in [`select_targets`].

pub mod action;
pub mod battle;
pub mod campaign;
pub mod dice_collector;
pub mod dice_instance;
pub mod dice_template;
pub mod dispatch;
pub mod events;
pub mod face;
pub mod face_prototypes;
pub mod interaction;
pub mod roll;
pub mod select_targets;
pub mod sequence;
pub mod status;
pub mod synergy;
pub mod try_all;
