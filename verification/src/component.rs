use vstd::prelude::*;

verus! {

/// The identifier of a game object (a unit or a skill).
pub type EntityId = u64;

/// Marks the unit that the user controls.
#[derive(Debug, Clone, Copy, PartialEq, Eq, Structural)]
pub struct Player;

/// Marks the user's allies.
#[derive(Debug, Clone, Copy, PartialEq, Eq, Structural)]
pub struct Ally;

/// Marks an enemy unit.
#[derive(Debug, Clone, Copy, PartialEq, Eq, Structural)]
pub struct Enemy;

/// The display name of a unit or skill.
#[derive(Debug, Clone)]
pub struct LabelName(pub String);

/// Which units a skill may be cast on.
#[derive(Debug, Clone, Copy, PartialEq, Eq, Structural)]
pub enum Target {
    Player,
    Ally,
    AllyButSelf,
    AllyAOE,
    Enemy,
    EnemyAOE,
    Any,
    AnyButSelf,
    NoneButSelf,
}

/// Whether a skill can only be cast by friendlies or enemies, or both.
#[derive(Debug, Clone, Copy, PartialEq, Eq, Structural)]
pub enum SkillGroup {
    Ally,
    Enemy,
    Universal,
}

/// Marks a skill.
#[derive(Debug, Clone, Copy, PartialEq, Eq, Structural)]
pub struct Skill;

/// Whether a skill is known: a basic skill, a learned one, or one not
/// learned yet.
#[derive(Debug, Clone, Copy, PartialEq, Eq, Structural)]
pub enum Learned {
    Basic,
    Learned,
    NotLearned,
}

/// The kind of a unit, which decides the skills it can learn.
#[derive(Debug, Clone, Copy, PartialEq, Eq, Hash, Structural)]
pub enum UnitArchetype {
    PlayerRoot,
    AllyRoot,
    EnemyZone1,
}

/// The unit archetypes that can learn a skill.
#[derive(Debug, Clone)]
pub struct LearnableArchetypes(pub Vec<UnitArchetype>);

/// Carries the identifier of a skill.
#[derive(Debug, Clone, Copy, PartialEq, Eq, Structural)]
pub struct SkillEnt(pub EntityId);

/// Current health of a unit.
#[derive(Debug, Clone, Copy, PartialEq, Eq, Structural)]
pub struct Health(pub i32);

/// Maximal health of a unit.
#[derive(Debug, Clone, Copy, PartialEq, Eq, Structural)]
pub struct MaxHealth(pub i32);

/// Current mana of a unit.
#[derive(Debug, Clone, Copy, PartialEq, Eq, Structural)]
pub struct Mana(pub i32);

/// Maximal mana of a unit.
#[derive(Debug, Clone, Copy, PartialEq, Eq, Structural)]
pub struct MaxMana(pub i32);

/// Damage dealt by a skill.
#[derive(Debug, Clone, Copy, PartialEq, Eq, Structural)]
pub struct Damage(pub i32);

/// Block of a unit, or block granted by a skill.
#[derive(Debug, Clone, Copy, PartialEq, Eq, Structural)]
pub struct Block(pub i32);

impl Default for Block {
    fn default() -> (b: Self)
        ensures
            b.0 == 0,
    {
        Block(0)
    }
}

/// Health restored by a skill.
#[derive(Debug, Clone, Copy, PartialEq, Eq, Structural)]
pub struct Heal(pub i32);

/// Initiative of a unit: faster units act first.
#[derive(Debug, Clone, Copy, PartialEq, Eq, Structural)]
pub struct Speed(pub i32);

/// Whether the character is moving in the open world.
#[derive(Debug, Clone, Copy, PartialEq, Eq, Structural)]
pub struct IsMoving(pub bool);

/// Carries the identifier of a targeted unit.
#[derive(Debug, Clone, Copy, PartialEq, Eq, Structural)]
pub struct TargetEnt(pub EntityId);

/// Number of turns a skill is channeled before it takes effect.
#[derive(Debug, Clone, Copy, PartialEq, Eq, Structural)]
pub struct Channel(pub u32);

/// The skill a unit is channeling, and its target.
#[derive(Debug, Clone, Copy, PartialEq, Eq, Structural)]
pub struct Casting {
    pub skill_ent: EntityId,
    pub target_ent: EntityId,
}

/// Marks a skill icon of the skill wheel.
#[derive(Debug, Clone, Copy, PartialEq, Eq, Structural)]
pub struct SkillIcon;

/// Whether the skill wheel is shown.
#[derive(Debug, Clone, Copy, PartialEq, Eq, Hash, Structural)]
pub enum SkillWheelStatus {
    Open,
    Closed,
}

/// Whether the target selection window is shown.
#[derive(Debug, Clone, Copy, PartialEq, Eq, Hash, Structural)]
pub enum TargetPromptStatus {
    Open,
    Closed,
}

/// A unit casts a skill on a target.
#[derive(Debug, Clone, Copy, PartialEq, Eq, Structural)]
pub struct CastSkillEvent {
    pub skill_ent: SkillEnt,
    pub target: EntityId,
    pub caster: EntityId,
}

/// Whose turn it is.
#[derive(Debug, Clone, Copy, PartialEq, Eq, Hash, Structural)]
pub enum WhoseTurn {
    Player,
    Enemy,
    System,
}

/// Whether the character walks the open world (and can move) or fights (and
/// cannot move).
#[derive(Debug, Clone, Copy, PartialEq, Eq, Hash, Structural)]
pub enum GameState {
    InCombat,
    OutOfCombat,
}

} // verus!
