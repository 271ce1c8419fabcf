//! Faces: what one side of a die does when the die lands on it.

use vstd::prelude::*;

verus! {

/// The effect kind of a face.
#[derive(Clone, Copy, Debug, PartialEq, Eq, Hash, Structural)]
pub enum Action {
    Empty,
    Attack,
    Defend,
    Regenerate,
    Fire,
    Fiery,
}

impl Default for Action {
    fn default() -> (action: Action)
        ensures
            action == Action::Empty,
    {
        Action::Empty
    }
}

impl Action {
    /// Whether resolving the action reads a pip count from its face.
    pub open spec fn needs_pips(self) -> bool {
        self == Action::Attack || self == Action::Regenerate || self == Action::Fire
    }

    /// Whether resolving the action reads a pip count from its face.
    pub fn uses_pips(self) -> (b: bool)
        ensures
            b == self.needs_pips(),
    {
        match self {
            Action::Attack | Action::Regenerate | Action::Fire => true,
            Action::Empty | Action::Defend | Action::Fiery => false,
        }
    }
}

/// A modifier painted behind a face's action.
#[derive(Clone, Copy, Debug, PartialEq, Eq, Hash, Structural)]
pub enum FaceBackground {
    Empty,
    /// The action aims at a die with the lowest health among the eligible ones.
    Cruel,
    /// The action is resolved twice in a row.
    Double,
}

impl Default for FaceBackground {
    fn default() -> (background: FaceBackground)
        ensures
            background == FaceBackground::Empty,
    {
        FaceBackground::Empty
    }
}

impl FaceBackground {
    /// How many times a face with this background is resolved.
    pub open spec fn repeat_count(self) -> nat {
        if self == FaceBackground::Double {
            2
        } else {
            1
        }
    }

    /// What the background does, in words for a tooltip.
    pub fn description(&self) -> (text: Option<String>)
        ensures
            *self == FaceBackground::Empty ==> text is None,
            *self == FaceBackground::Cruel ==> text is Some && text->0@
                == "Targets the lowest-health dice"@,
            *self == FaceBackground::Double ==> text is Some && text->0@ == "Triggers two times"@,
    {
        match self {
            FaceBackground::Empty => None,
            FaceBackground::Cruel => Some("Targets the lowest-health dice".to_string()),
            FaceBackground::Double => Some("Triggers two times".to_string()),
        }
    }

    /// How many times a face with this background is resolved.
    pub fn repeats(self) -> (n: u32)
        ensures
            n == self.repeat_count(),
    {
        match self {
            FaceBackground::Double => 2,
            FaceBackground::Empty | FaceBackground::Cruel => 1,
        }
    }
}

/// One side of a die: an action, its magnitude and a background.
#[derive(Clone, Copy, Debug, PartialEq, Eq, Hash)]
pub struct FacePrototype {
    pub action: Action,
    pub pips: Option<u32>,
    pub background: FaceBackground,
}

impl Default for FacePrototype {
    fn default() -> (face: FacePrototype)
        ensures
            face == (FacePrototype {
                action: Action::Empty,
                pips: None,
                background: FaceBackground::Empty,
            }),
    {
        FacePrototype { action: Action::Empty, pips: None, background: FaceBackground::Empty }
    }
}

impl FacePrototype {
    /// A face is well formed when every action that reads pips has them.
    pub open spec fn wf(self) -> bool {
        self.action.needs_pips() ==> self.pips is Some
    }

    #[verifier::allow_in_spec]
    pub fn new(action: Action, pips: Option<u32>) -> FacePrototype
        returns
            (FacePrototype { action, pips, background: FaceBackground::Empty }),
    {
        FacePrototype { action, pips, background: FaceBackground::Empty }
    }

    #[verifier::allow_in_spec]
    pub fn with_pips(self, pips: u32) -> FacePrototype
        returns
            (FacePrototype { pips: Some(pips), ..self }),
    {
        FacePrototype { action: self.action, pips: Some(pips), background: self.background }
    }

    /// The face after a bought face has been laid over it: the action and
    /// the pips of the bought face, on the background that was there.
    pub fn overlaid(self, bought: FacePrototype) -> (face: FacePrototype)
        ensures
            face == (FacePrototype {
                action: bought.action,
                pips: bought.pips,
                background: self.background,
            }),
            bought.wf() ==> face.wf(),
    {
        FacePrototype { action: bought.action, pips: bought.pips, background: self.background }
    }

    #[verifier::allow_in_spec]
    pub fn with_background(self, background: FaceBackground) -> FacePrototype
        returns
            (FacePrototype { background, ..self }),
    {
        FacePrototype { action: self.action, pips: self.pips, background }
    }
}

} // verus!
