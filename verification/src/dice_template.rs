//! Dice templates: the hit points and six faces a die is spawned from.

use crate::face::FacePrototype;
use crate::face_prototypes::{
    attack_double, attack_strong, attack_strong_cruel, attack_weak, defend, empty, fire_strong,
    fire_weak, regen_strong, regen_weak,
};
use vstd::prelude::*;

verus! {

/// How many dice a team brings to a battle.
pub const DICE_COUNT: usize = 5;

/// The six sides of a die, named by where they lie on the unfolded cross.
#[derive(Clone, Copy, Debug, PartialEq, Eq, Structural)]
pub enum FaceId {
    Top,
    Left,
    Right,
    Middle,
    NearBottom,
    FarBottom,
}

impl FaceId {
    /// The place of the side in a template's face array.
    pub open spec fn position(self) -> int {
        match self {
            FaceId::Top => 0,
            FaceId::Left => 1,
            FaceId::Right => 2,
            FaceId::Middle => 3,
            FaceId::NearBottom => 4,
            FaceId::FarBottom => 5,
        }
    }

    /// The place of the side in a template's face array.
    pub fn index(self) -> (i: usize)
        ensures
            i == self.position(),
            i < 6,
    {
        match self {
            FaceId::Top => 0,
            FaceId::Left => 1,
            FaceId::Right => 2,
            FaceId::Middle => 3,
            FaceId::NearBottom => 4,
            FaceId::FarBottom => 5,
        }
    }
}

/// What a die is spawned from.
#[derive(Clone, Copy, Debug, PartialEq, Eq)]
pub struct DiceTemplate {
    pub hp: u32,
    pub faces: [FacePrototype; 6],
}

impl DiceTemplate {
    /// Every face that reads pips has them.
    pub open spec fn wf(self) -> bool {
        forall|k: int| 0 <= k < 6 ==> (#[trigger] self.faces[k]).wf()
    }

    /// Whether every face that reads pips has them.
    pub fn is_well_formed(&self) -> (ok: bool)
        ensures
            ok == self.wf(),
    {
        let mut k: usize = 0;
        while k < 6
            invariant
                k <= 6,
                forall|j: int| 0 <= j < k ==> (#[trigger] self.faces[j]).wf(),
            decreases 6 - k,
        {
            let face = self.faces[k];
            if face.action.uses_pips() && face.pips.is_none() {
                return false;
            }
            k += 1;
        }
        true
    }
}

/// Collects the parts of a template one by one.
#[derive(Clone, Copy, Debug, PartialEq, Eq)]
pub struct DiceTemplateBuilder {
    pub faces: Option<[FacePrototype; 6]>,
    pub hp: Option<u32>,
}

impl Default for DiceTemplateBuilder {
    fn default() -> (builder: DiceTemplateBuilder)
        ensures
            builder.faces is None,
            builder.hp is None,
    {
        DiceTemplateBuilder { faces: None, hp: None }
    }
}

/// The faces of a berserker of the given level, top side first.
pub open spec fn berserker_faces(level: u32) -> Seq<FacePrototype> {
    seq![
        if level >= 3 { defend() } else { empty() },
        if level >= 4 { attack_strong_cruel().with_pips(3) } else { attack_strong_cruel() },
        if level >= 4 { attack_strong_cruel().with_pips(3) } else { attack_strong() },
        if level >= 2 { attack_strong() } else { empty() },
        empty(),
        empty(),
    ]
}

/// The faces of a paladin of the given level, top side first.
pub open spec fn paladin_faces(level: u32) -> Seq<FacePrototype> {
    seq![
        if level >= 3 { attack_weak() } else { empty() },
        if level >= 4 {
            attack_strong_cruel().with_pips(3)
        } else if level >= 2 {
            attack_strong()
        } else {
            attack_weak()
        },
        defend(),
        regen_weak(),
        if level >= 3 { attack_weak() } else { empty() },
        empty(),
    ]
}

/// The faces of a mage of the given level, top side first.
pub open spec fn mage_faces(level: u32) -> Seq<FacePrototype> {
    seq![
        if level >= 3 { fire_weak() } else { empty() },
        if level >= 4 { fire_strong().with_pips(3) } else { fire_strong() },
        if level >= 4 { fire_strong().with_pips(3) } else { fire_strong() },
        regen_weak(),
        if level >= 2 { fire_weak() } else { empty() },
        empty(),
    ]
}

/// The faces of a cleric of the given level, top side first.
pub open spec fn cleric_faces(level: u32) -> Seq<FacePrototype> {
    seq![
        if level >= 3 { regen_weak() } else { empty() },
        if level >= 4 { regen_strong().with_pips(3) } else { defend() },
        if level >= 4 { regen_strong().with_pips(3) } else { regen_strong() },
        if level >= 2 { regen_weak() } else { empty() },
        empty(),
        empty(),
    ]
}

/// The faces of a rogue of the given level, top side first.
pub open spec fn rogue_faces(level: u32) -> Seq<FacePrototype> {
    seq![
        if level >= 3 { attack_weak() } else { empty() },
        if level >= 4 { attack_strong_cruel() } else { attack_double() },
        attack_double(),
        if level >= 2 { attack_weak() } else { empty() },
        if level >= 4 { attack_weak() } else { empty() },
        empty(),
    ]
}

impl DiceTemplateBuilder {
    /// Whether the builder holds exactly these hit points and faces.
    pub open spec fn holds(self, hp: int, faces: Seq<FacePrototype>) -> bool {
        &&& self.hp == Some(hp as u32)
        &&& self.faces is Some
        &&& self.faces->0@ == faces
    }

    pub fn with_hp(self, hp: u32) -> (builder: DiceTemplateBuilder)
        ensures
            builder == (DiceTemplateBuilder { hp: Some(hp), ..self }),
    {
        DiceTemplateBuilder { faces: self.faces, hp: Some(hp) }
    }

    pub fn with_face_set(self, faces: [FacePrototype; 6]) -> (builder: DiceTemplateBuilder)
        ensures
            builder == (DiceTemplateBuilder { faces: Some(faces), ..self }),
    {
        DiceTemplateBuilder { faces: Some(faces), hp: self.hp }
    }

    /// Replaces one face of a face set that has been given before.
    pub fn with_face(self, face_id: FaceId, face: FacePrototype) -> (builder: DiceTemplateBuilder)
        requires
            self.faces is Some,
        ensures
            builder.hp == self.hp,
            builder.faces is Some,
            builder.faces->0@ == self.faces->0@.update(face_id.position(), face),
    {
        let mut faces = match self.faces {
            Some(faces) => faces,
            None => [face; 6],
        };
        faces[face_id.index()] = face;
        DiceTemplateBuilder { faces: Some(faces), hp: self.hp }
    }

    /// The finished template, or nothing while hit points or faces are missing.
    pub fn build(self) -> (template: Option<DiceTemplate>)
        ensures
            template == match (self.hp, self.faces) {
                (Some(hp), Some(faces)) => Some(DiceTemplate { hp, faces }),
                _ => None,
            },
    {
        match (self.hp, self.faces) {
            (Some(hp), Some(faces)) => Some(DiceTemplate { hp, faces }),
            _ => None,
        }
    }

    pub fn berserker(level: u32) -> (builder: DiceTemplateBuilder)
        requires
            1 <= level <= 4,
        ensures
            builder.holds(5 + level, berserker_faces(level)),
    {
        let mut ret = DiceTemplateBuilder::default().with_hp(5 + level).with_face_set(
            [empty(), attack_strong_cruel(), attack_strong(), empty(), empty(), empty()],
        );
        if level == 1 {
            assert(ret.faces->0@ =~= berserker_faces(level));
            return ret;
        }
        ret = ret.with_face(FaceId::Middle, attack_strong());
        if level == 2 {
            assert(ret.faces->0@ =~= berserker_faces(level));
            return ret;
        }
        ret = ret.with_face(FaceId::Top, defend());
        if level == 3 {
            assert(ret.faces->0@ =~= berserker_faces(level));
            return ret;
        }
        let ret = ret.with_face(FaceId::Left, attack_strong_cruel().with_pips(3)).with_face(
            FaceId::Right,
            attack_strong_cruel().with_pips(3),
        );
        assert(ret.faces->0@ =~= berserker_faces(level));
        ret
    }

    pub fn paladin(level: u32) -> (builder: DiceTemplateBuilder)
        requires
            1 <= level <= 4,
        ensures
            builder.holds(4 + 2 * level, paladin_faces(level)),
    {
        let mut ret = DiceTemplateBuilder::default().with_hp(4 + 2 * level).with_face_set(
            [empty(), attack_weak(), defend(), regen_weak(), empty(), empty()],
        );
        if level == 1 {
            assert(ret.faces->0@ =~= paladin_faces(level));
            return ret;
        }
        ret = ret.with_face(FaceId::Left, attack_strong());
        if level == 2 {
            assert(ret.faces->0@ =~= paladin_faces(level));
            return ret;
        }
        ret = ret.with_face(FaceId::Top, attack_weak()).with_face(FaceId::NearBottom, attack_weak());
        if level == 3 {
            assert(ret.faces->0@ =~= paladin_faces(level));
            return ret;
        }
        let ret = ret.with_face(FaceId::Left, attack_strong_cruel().with_pips(3));
        assert(ret.faces->0@ =~= paladin_faces(level));
        ret
    }

    pub fn mage(level: u32) -> (builder: DiceTemplateBuilder)
        requires
            1 <= level <= 4,
        ensures
            builder.holds(2 + level, mage_faces(level)),
    {
        let mut ret = DiceTemplateBuilder::default().with_hp(2 + level).with_face_set(
            [empty(), fire_strong(), fire_strong(), regen_weak(), empty(), empty()],
        );
        if level == 1 {
            assert(ret.faces->0@ =~= mage_faces(level));
            return ret;
        }
        ret = ret.with_face(FaceId::NearBottom, fire_weak());
        if level == 2 {
            assert(ret.faces->0@ =~= mage_faces(level));
            return ret;
        }
        ret = ret.with_face(FaceId::Top, fire_weak());
        if level == 3 {
            assert(ret.faces->0@ =~= mage_faces(level));
            return ret;
        }
        let ret = ret.with_face(FaceId::Left, fire_strong().with_pips(3)).with_face(
            FaceId::Right,
            fire_strong().with_pips(3),
        );
        assert(ret.faces->0@ =~= mage_faces(level));
        ret
    }

    pub fn cleric(level: u32) -> (builder: DiceTemplateBuilder)
        requires
            1 <= level <= 4,
        ensures
            builder.holds(3 + 2 * level, cleric_faces(level)),
    {
        let mut ret = DiceTemplateBuilder::default().with_hp(3 + 2 * level).with_face_set(
            [empty(), defend(), regen_strong(), empty(), empty(), empty()],
        );
        if level == 1 {
            assert(ret.faces->0@ =~= cleric_faces(level));
            return ret;
        }
        ret = ret.with_face(FaceId::Middle, regen_weak());
        if level == 2 {
            assert(ret.faces->0@ =~= cleric_faces(level));
            return ret;
        }
        ret = ret.with_face(FaceId::Top, regen_weak());
        if level == 3 {
            assert(ret.faces->0@ =~= cleric_faces(level));
            return ret;
        }
        let ret = ret.with_face(FaceId::Left, regen_strong().with_pips(3)).with_face(
            FaceId::Right,
            regen_strong().with_pips(3),
        );
        assert(ret.faces->0@ =~= cleric_faces(level));
        ret
    }

    pub fn rogue(level: u32) -> (builder: DiceTemplateBuilder)
        requires
            1 <= level <= 4,
        ensures
            builder.holds(3 + level, rogue_faces(level)),
    {
        let mut ret = DiceTemplateBuilder::default().with_hp(3 + level).with_face_set(
            [empty(), attack_double(), attack_double(), empty(), empty(), empty()],
        );
        if level == 1 {
            assert(ret.faces->0@ =~= rogue_faces(level));
            return ret;
        }
        ret = ret.with_face(FaceId::Middle, attack_weak());
        if level == 2 {
            assert(ret.faces->0@ =~= rogue_faces(level));
            return ret;
        }
        ret = ret.with_face(FaceId::Top, attack_weak());
        if level == 3 {
            assert(ret.faces->0@ =~= rogue_faces(level));
            return ret;
        }
        let ret = ret.with_face(FaceId::NearBottom, attack_weak()).with_face(
            FaceId::Left,
            attack_strong_cruel(),
        );
        assert(ret.faces->0@ =~= rogue_faces(level));
        ret
    }
}

/// The enemy team of a given level: one die of each class.
pub struct Challenge(pub [DiceTemplateBuilder; DICE_COUNT]);

impl Challenge {
    pub fn new(level: u32) -> (challenge: Challenge)
        requires
            1 <= level <= 4,
        ensures
            challenge.0[0].holds(5 + level, berserker_faces(level)),
            challenge.0[1].holds(4 + 2 * level, paladin_faces(level)),
            challenge.0[2].holds(3 + 2 * level, cleric_faces(level)),
            challenge.0[3].holds(2 + level, mage_faces(level)),
            challenge.0[4].holds(3 + level, rogue_faces(level)),
    {
        Challenge(
            [
                DiceTemplateBuilder::berserker(level),
                DiceTemplateBuilder::paladin(level),
                DiceTemplateBuilder::cleric(level),
                DiceTemplateBuilder::mage(level),
                DiceTemplateBuilder::rogue(level),
            ],
        )
    }
}

} // verus!
