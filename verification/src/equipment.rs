use vstd::prelude::*;

use crate::dice::DiceRoll;

verus! {

/// Bound on the magnitude of any base stat, flat bonus or speed delta that
/// the arithmetic of stat resolution accepts without risk of overflow.
pub const STAT_BOUND: i32 = 0x100_0000;

/// The six places a character can wear or hold one piece of equipment.
#[derive(Debug, Clone, Copy, PartialEq, Eq, Structural, Hash)]
pub enum EquipmentSlot {
    Torso,
    Arms,
    Head,
    Legs,
    MainHand,
    OffHand,
}

/// Passive equipment: a static stat contribution tied to one slot. Defense
/// may be flat, dice-based, or both; the dice part is re-rolled on every
/// query.
#[derive(Debug)]
pub struct Equipment {
    pub name: String,
    pub slot: EquipmentSlot,
    pub defense: Option<DiceRoll>,
    pub defense_flat: i32,
    pub speed_mod: i32,
    pub strength_mod: i32,
    pub magic_mod: i32,
}

impl Clone for Equipment {
    fn clone(&self) -> (r: Self)
        ensures
            r == *self,
    {
        Equipment {
            name: self.name.clone(),
            slot: self.slot,
            defense: self.defense,
            defense_flat: self.defense_flat,
            speed_mod: self.speed_mod,
            strength_mod: self.strength_mod,
            magic_mod: self.magic_mod,
        }
    }
}

impl Equipment {
    /// Equipment whose dice can be rolled and whose contributions stay small
    /// enough for stat sums never to overflow.
    pub open spec fn wf(self) -> bool {
        &&& match self.defense {
            Some(d) => d.wf() && d.max_roll() <= STAT_BOUND,
            None => true,
        }
        &&& -STAT_BOUND <= self.defense_flat <= STAT_BOUND
        &&& -STAT_BOUND <= self.speed_mod <= STAT_BOUND
        &&& -STAT_BOUND <= self.strength_mod <= STAT_BOUND
        &&& -STAT_BOUND <= self.magic_mod <= STAT_BOUND
    }

    /// Least defense value a query can yield.
    pub open spec fn def_min(self) -> int {
        self.defense_flat + match self.defense {
            Some(d) => d.min_roll(),
            None => 0,
        }
    }

    /// Greatest defense value a query can yield.
    pub open spec fn def_max(self) -> int {
        self.defense_flat + match self.defense {
            Some(d) => d.max_roll(),
            None => 0,
        }
    }

    pub fn new(name: &str, slot: EquipmentSlot) -> (r: Self)
        ensures
            r.name@ == name@,
            r.slot == slot,
            r.defense == None::<DiceRoll>,
            r.defense_flat == 0,
            r.speed_mod == 0,
            r.strength_mod == 0,
            r.magic_mod == 0,
            r.wf(),
    {
        Equipment {
            name: name.to_owned(),
            slot,
            defense: None,
            defense_flat: 0,
            speed_mod: 0,
            strength_mod: 0,
            magic_mod: 0,
        }
    }

    pub fn with_defense_flat(self, defense: i32) -> (r: Self)
        ensures
            r == (Equipment { defense_flat: defense, ..self }),
    {
        Equipment { defense_flat: defense, ..self }
    }

    pub fn with_defense_dice(self, dice: DiceRoll) -> (r: Self)
        ensures
            r == (Equipment { defense: Some(dice), ..self }),
    {
        Equipment { defense: Some(dice), ..self }
    }

    pub fn with_speed(self, speed: i32) -> (r: Self)
        ensures
            r == (Equipment { speed_mod: speed, ..self }),
    {
        Equipment { speed_mod: speed, ..self }
    }

    /// One defense query: the flat part plus a fresh roll of the dice part.
    pub fn get_defense(&self) -> (r: i32)
        requires
            self.wf(),
        ensures
            self.def_min() <= r <= self.def_max(),
    {
        let dice_val: i32 = match self.defense {
            Some(d) => d.roll(),
            None => 0,
        };
        self.defense_flat + dice_val
    }

    /// Twice the expected defense value, for heuristics only.
    pub fn get_defense_avg_x2(&self) -> (r: i32)
        requires
            self.wf(),
        ensures
            r == 2 * self.defense_flat + match self.defense {
                Some(d) => d.num_dice * (1 + d.sides) + 2 * d.modifier,
                None => 0,
            },
    {
        let dice_avg: i32 = match self.defense {
            Some(d) => {
                proof {
                    let dd = self.defense->Some_0;
                    assert(0 <= dd.num_dice * (1 + dd.sides) <= 255 * 256) by (nonlinear_arith)
                        requires
                            0 <= dd.num_dice <= 255,
                            0 <= dd.sides <= 255,
                    ;
                }
                d.average_x2()
            },
            None => 0,
        };
        2 * self.defense_flat + dice_avg
    }
}

/// Iron armor: +3 flat defense, -3 speed, worn on the torso.
pub fn create_armadura_de_ferro() -> (r: Equipment)
    ensures
        r.wf(),
        r.slot == EquipmentSlot::Torso,
        r.defense == None::<DiceRoll>,
        r.defense_flat == 3,
        r.speed_mod == -3,
        r.strength_mod == 0,
        r.magic_mod == 0,
{
    Equipment::new("Armadura de ferro", EquipmentSlot::Torso).with_defense_flat(3).with_speed(-3)
}

/// Chain mail: 1d4 defense, -2 speed, worn on the torso.
pub fn create_cota_de_malla() -> (r: Equipment)
    ensures
        r.wf(),
        r.slot == EquipmentSlot::Torso,
        r.defense == Some(DiceRoll { num_dice: 1, sides: 4, modifier: 0 }),
        r.defense_flat == 0,
        r.speed_mod == -2,
        r.strength_mod == 0,
        r.magic_mod == 0,
{
    Equipment::new("Cota de malla", EquipmentSlot::Torso).with_defense_dice(
        DiceRoll::new(1, 4, 0),
    ).with_speed(-2)
}

/// Leather armor: +2 flat defense, -1 speed, worn on the torso.
pub fn create_armadura_de_cuir() -> (r: Equipment)
    ensures
        r.wf(),
        r.slot == EquipmentSlot::Torso,
        r.defense == None::<DiceRoll>,
        r.defense_flat == 2,
        r.speed_mod == -1,
        r.strength_mod == 0,
        r.magic_mod == 0,
{
    Equipment::new("Armadura de cuir", EquipmentSlot::Torso).with_defense_flat(2).with_speed(-1)
}

/// Leather bracers: +1 flat defense, worn on the arms.
pub fn create_bracals_de_cuir() -> (r: Equipment)
    ensures
        r.wf(),
        r.slot == EquipmentSlot::Arms,
        r.defense == None::<DiceRoll>,
        r.defense_flat == 1,
        r.speed_mod == 0,
        r.strength_mod == 0,
        r.magic_mod == 0,
{
    Equipment::new("Braçals de cuir", EquipmentSlot::Arms).with_defense_flat(1).with_speed(0)
}

} // verus!
