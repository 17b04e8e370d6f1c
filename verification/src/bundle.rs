//! The sets of components a unit or a skill is created with.
use vstd::prelude::*;

use crate::component::{
    Block, Channel, Damage, Heal, Health, LabelName, LearnableArchetypes, Learned, Mana, MaxHealth,
    MaxMana, Skill, SkillGroup, Speed, Target, UnitArchetype,
};
use crate::text::str_to_string;

verus! {

/// A skill with the minimum required parameters; the optional stats are
/// added separately.
#[derive(Debug)]
pub struct SkillBundle {
    pub name: LabelName,
    pub skill_group: SkillGroup,
    pub target: Target,
    pub skill: Skill,
}

impl Default for SkillBundle {
    fn default() -> (b: Self)
        ensures
            b.name.0@ == "Unnamed skill"@,
            b.skill_group == SkillGroup::Universal,
            b.target == Target::Any,
    {
        SkillBundle {
            skill_group: SkillGroup::Universal,
            name: LabelName(str_to_string("Unnamed skill")),
            skill: Skill,
            target: Target::Any,
        }
    }
}

/// A unit's default stats; the optional components are added separately.
#[derive(Debug)]
pub struct UnitBundle {
    pub name: LabelName,
    pub current_health: Health,
    pub max_health: MaxHealth,
    pub current_mana: Mana,
    pub max_mana: MaxMana,
    pub default_block: Block,
    pub speed: Speed,
}

impl UnitBundle {
    /// A new unit at full health and mana.
    pub fn new(name: LabelName, health: Health, mana: Mana, default_block: Block, speed: Speed) -> (b: Self)
        ensures
            b.name == name,
            b.current_health == health,
            b.max_health.0 == health.0,
            b.current_mana == mana,
            b.max_mana.0 == mana.0,
            b.default_block == default_block,
            b.speed == speed,
    {
        UnitBundle {
            name,
            current_health: health,
            max_health: MaxHealth(health.0),
            current_mana: mana,
            max_mana: MaxMana(mana.0),
            default_block,
            speed,
        }
    }

    /// A new unit with custom current and maximal health and mana.
    pub fn new_injured(
        name: LabelName,
        current_health: Health,
        max_health: MaxHealth,
        current_mana: Mana,
        max_mana: MaxMana,
        default_block: Block,
        speed: Speed,
    ) -> (b: Self)
        ensures
            b.name == name,
            b.current_health == current_health,
            b.max_health == max_health,
            b.current_mana == current_mana,
            b.max_mana == max_mana,
            b.default_block == default_block,
            b.speed == speed,
    {
        UnitBundle { name, current_health, max_health, current_mana, max_mana, default_block, speed }
    }
}

/// One entry of the skill book: a skill and its optional stats.
#[derive(Debug)]
pub struct SkillDataTable {
    pub label_name: String,
    pub skill_group: SkillGroup,
    pub target: Target,
    pub mana: Option<i32>,
    pub damage: Option<i32>,
    pub block: Option<i32>,
    pub heal: Option<i32>,
    pub channel: Option<u32>,
    pub learned: Learned,
    pub learnable_archetypes: Vec<UnitArchetype>,
}

/// The components a skill of the skill book is created with.
#[derive(Debug)]
pub struct SkillComponents {
    pub bundle: SkillBundle,
    pub damage: Option<Damage>,
    pub block: Option<Block>,
    pub heal: Option<Heal>,
    pub channel: Option<Channel>,
    pub learned: Learned,
    pub learnable: LearnableArchetypes,
}

/// The components of a skill book entry: its name, group and targeting type,
/// and each stat that the entry gives.
pub fn skill_components(entry: &SkillDataTable) -> (c: SkillComponents)
    ensures
        c.bundle.name.0@ == entry.label_name@,
        c.bundle.skill_group == entry.skill_group,
        c.bundle.target == entry.target,
        c.damage == match entry.damage {
            Some(v) => Some(Damage(v)),
            None => None::<Damage>,
        },
        c.block == match entry.block {
            Some(v) => Some(Block(v)),
            None => None::<Block>,
        },
        c.heal == match entry.heal {
            Some(v) => Some(Heal(v)),
            None => None::<Heal>,
        },
        c.channel == match entry.channel {
            Some(v) => Some(Channel(v)),
            None => None::<Channel>,
        },
        c.learned == entry.learned,
        c.learnable.0@ == entry.learnable_archetypes@,
{
    let mut learnable: Vec<UnitArchetype> = Vec::new();
    let mut i: usize = 0;
    while i < entry.learnable_archetypes.len()
        invariant
            i <= entry.learnable_archetypes@.len(),
            learnable@ == entry.learnable_archetypes@.take(i as int),
        decreases entry.learnable_archetypes@.len() - i,
    {
        learnable.push(entry.learnable_archetypes[i]);
        assert(learnable@ =~= entry.learnable_archetypes@.take(i + 1));
        i = i + 1;
    }
    assert(entry.learnable_archetypes@.take(i as int) =~= entry.learnable_archetypes@);
    let bundle = SkillBundle {
        name: LabelName(entry.label_name.clone()),
        skill_group: entry.skill_group,
        target: entry.target,
        skill: Skill,
    };
    SkillComponents {
        bundle,
        damage: match entry.damage {
            Some(v) => Some(Damage(v)),
            None => None,
        },
        block: match entry.block {
            Some(v) => Some(Block(v)),
            None => None,
        },
        heal: match entry.heal {
            Some(v) => Some(Heal(v)),
            None => None,
        },
        channel: match entry.channel {
            Some(v) => Some(Channel(v)),
            None => None,
        },
        learned: entry.learned,
        learnable: LearnableArchetypes(learnable),
    }
}

} // verus!
