//! How a skill changes the stats of its target.
use vstd::prelude::*;

use crate::component::{Block, Damage, Heal, Health};

verus! {

/// Whether an integer fits in an `i32`.
pub open spec fn fits_i32(v: int) -> bool {
    i32::MIN <= v <= i32::MAX
}

/// Health and block of a target after taking `damage`: block absorbs the
/// damage first, and what it does not absorb is lost from health.
pub open spec fn damage_result(health: int, block: int, damage: int) -> (int, int) {
    if block <= damage {
        (health - (damage - block), 0)
    } else {
        (health, block - damage)
    }
}

/// Taking `damage` keeps every intermediate value in the `i32` range.
pub open spec fn damage_fits(health: int, block: int, damage: int) -> bool {
    if block <= damage {
        fits_i32(damage - block) && fits_i32(health - (damage - block))
    } else {
        fits_i32(block - damage)
    }
}

/// The block, damage and heal stats that a skill carries, each optional.
#[derive(Debug, Clone, Copy, PartialEq, Eq, Structural)]
pub struct SkillStats {
    pub block: Option<Block>,
    pub damage: Option<Damage>,
    pub heal: Option<Heal>,
}

/// Health and block of a target after a skill: first its block is added, then
/// its heal, then its damage is taken.
pub open spec fn skill_result(skill: SkillStats, health: int, block: int) -> (int, int) {
    let b1 = match skill.block {
        Some(b) => block + b.0,
        None => block,
    };
    let h1 = match skill.heal {
        Some(h) => health + h.0,
        None => health,
    };
    match skill.damage {
        Some(d) => damage_result(h1, b1, d.0 as int),
        None => (h1, b1),
    }
}

/// Applying the skill keeps every intermediate value in the `i32` range.
pub open spec fn skill_fits(skill: SkillStats, health: int, block: int) -> bool {
    let b1 = match skill.block {
        Some(b) => block + b.0,
        None => block,
    };
    let h1 = match skill.heal {
        Some(h) => health + h.0,
        None => health,
    };
    &&& fits_i32(b1)
    &&& fits_i32(h1)
    &&& match skill.damage {
        Some(d) => damage_fits(h1, b1, d.0 as int),
        None => true,
    }
}

fn in_i32(v: i64) -> (r: bool)
    ensures
        r == fits_i32(v as int),
{
    -2147483648i64 <= v && v <= 2147483647i64
}

/// Whether applying `skill` to a target with `health` and `block` keeps every
/// value in the `i32` range.
pub fn skill_in_range(skill: &SkillStats, health: &Health, block: &Block) -> (r: bool)
    ensures
        r == skill_fits(*skill, health.0 as int, block.0 as int),
{
    let b1: i64 = match skill.block {
        Some(b) => block.0 as i64 + b.0 as i64,
        None => block.0 as i64,
    };
    let h1: i64 = match skill.heal {
        Some(h) => health.0 as i64 + h.0 as i64,
        None => health.0 as i64,
    };
    if !in_i32(b1) || !in_i32(h1) {
        return false;
    }
    match skill.damage {
        Some(d) => {
            let d: i64 = d.0 as i64;
            if b1 <= d {
                in_i32(d - b1) && in_i32(h1 - (d - b1))
            } else {
                in_i32(b1 - d)
            }
        },
        None => true,
    }
}

/// Updates the target's block according to the skill's block stat.
pub fn eval_block(skill_block: Option<&Block>, target_block: &mut Block)
    requires
        match skill_block {
            Some(b) => fits_i32(old(target_block).0 + b.0),
            None => true,
        },
    ensures
        final(target_block).0 == match skill_block {
            Some(b) => old(target_block).0 + b.0,
            None => old(target_block).0 as int,
        },
{
    if let Some(skill_block) = skill_block {
        target_block.0 = target_block.0 + skill_block.0;
    }
}

/// Updates the target's health and block according to the skill's damage
/// stat.
pub fn eval_damage(skill_damage: Option<&Damage>, target_health: &mut Health, target_block: &mut Block)
    requires
        match skill_damage {
            Some(d) => damage_fits(old(target_health).0 as int, old(target_block).0 as int, d.0 as int),
            None => true,
        },
    ensures
        match skill_damage {
            Some(d) => (final(target_health).0 as int, final(target_block).0 as int) == damage_result(
                old(target_health).0 as int,
                old(target_block).0 as int,
                d.0 as int,
            ),
            None => final(target_health).0 == old(target_health).0 && final(target_block).0 == old(
                target_block,
            ).0,
        },
{
    if let Some(skill_damage) = skill_damage {
        if target_block.0 <= skill_damage.0 {
            target_health.0 = target_health.0 - (skill_damage.0 - target_block.0);
            target_block.0 = 0;
        } else {
            target_block.0 = target_block.0 - skill_damage.0;
        }
    }
}

/// Updates the target's health according to the skill's healing stat.
pub fn eval_heal(skill_heal: Option<&Heal>, target_health: &mut Health)
    requires
        match skill_heal {
            Some(h) => fits_i32(old(target_health).0 + h.0),
            None => true,
        },
    ensures
        final(target_health).0 == match skill_heal {
            Some(h) => old(target_health).0 + h.0,
            None => old(target_health).0 as int,
        },
{
    if let Some(skill_heal) = skill_heal {
        target_health.0 = target_health.0 + skill_heal.0;
    }
}

/// Applies a skill's block, heal and damage, in that order, to a target.
pub fn apply_skill(skill: &SkillStats, target_health: &mut Health, target_block: &mut Block)
    requires
        skill_fits(*skill, old(target_health).0 as int, old(target_block).0 as int),
    ensures
        (final(target_health).0 as int, final(target_block).0 as int) == skill_result(
            *skill,
            old(target_health).0 as int,
            old(target_block).0 as int,
        ),
{
    eval_block(skill.block.as_ref(), target_block);
    eval_heal(skill.heal.as_ref(), target_health);
    eval_damage(skill.damage.as_ref(), target_health, target_block);
}

/// What happens to the target once a skill has been evaluated.
#[derive(Debug, Clone, Copy, PartialEq, Eq, Structural)]
pub enum EvalOutcome {
    /// The player took lethal damage: it enters white out instead of dying.
    WhiteOut,
    /// Any other unit at or below zero health is killed.
    Killed,
    /// The target is still standing.
    Standing,
}

/// The outcome for a target left with `health`.
pub open spec fn outcome_of(health: int, is_player: bool) -> EvalOutcome {
    if health <= 0 && is_player {
        EvalOutcome::WhiteOut
    } else if health <= 0 {
        EvalOutcome::Killed
    } else {
        EvalOutcome::Standing
    }
}

/// Evaluates a skill cast instantly on a target: changes its stats and says
/// whether it enters white out, is killed, or stands.
pub fn eval_instant_skill(
    skill: &SkillStats,
    target_health: &mut Health,
    target_block: &mut Block,
    target_is_player: bool,
) -> (r: EvalOutcome)
    requires
        skill_fits(*skill, old(target_health).0 as int, old(target_block).0 as int),
    ensures
        (final(target_health).0 as int, final(target_block).0 as int) == skill_result(
            *skill,
            old(target_health).0 as int,
            old(target_block).0 as int,
        ),
        r == outcome_of(final(target_health).0 as int, target_is_player),
        target_is_player && final(target_health).0 <= 0 ==> r == EvalOutcome::WhiteOut,
        !target_is_player && final(target_health).0 <= 0 ==> r == EvalOutcome::Killed,
        final(target_health).0 > 0 ==> r == EvalOutcome::Standing,
{
    apply_skill(skill, target_health, target_block);
    if target_health.0 <= 0 && target_is_player {
        EvalOutcome::WhiteOut
    } else if target_health.0 <= 0 {
        EvalOutcome::Killed
    } else {
        EvalOutcome::Standing
    }
}

/// Block absorbs damage: the sum of health and block drops by exactly the
/// damage; with non-negative damage and block, health never rises and block
/// never goes below zero.
pub proof fn lemma_damage_absorbed(health: int, block: int, damage: int)
    ensures
        damage_result(health, block, damage).0 + damage_result(health, block, damage).1 == health
            + block - damage,
        damage >= 0 && block >= 0 ==> damage_result(health, block, damage).1 >= 0
            && damage_result(health, block, damage).0 <= health,
        block >= damage ==> damage_result(health, block, damage).0 == health,
        block <= damage ==> damage_result(health, block, damage).1 == 0,
        block > damage ==> damage_result(health, block, damage).1 == block - damage,
{
}

/// What a skill leaves of health and block fits in an `i32` whenever applying
/// it stays in range.
pub proof fn lemma_skill_result_fits(skill: SkillStats, health: int, block: int)
    requires
        skill_fits(skill, health, block),
    ensures
        fits_i32(skill_result(skill, health, block).0),
        fits_i32(skill_result(skill, health, block).1),
{
}

/// The outcome of a hit depends on the health left and on who was hit: a
/// player at or below zero health whites out and is never killed, any other
/// unit at or below zero is killed, and a target above zero stands.
pub proof fn lemma_outcome(health: int, is_player: bool)
    ensures
        is_player && health <= 0 ==> outcome_of(health, is_player) == EvalOutcome::WhiteOut,
        !is_player && health <= 0 ==> outcome_of(health, is_player) == EvalOutcome::Killed,
        health > 0 ==> outcome_of(health, is_player) == EvalOutcome::Standing,
        outcome_of(health, is_player) == EvalOutcome::Killed ==> !is_player,
        outcome_of(health, is_player) == EvalOutcome::WhiteOut ==> is_player,
{
}

/// A skill adds its block and its heal and takes its damage: the sum of
/// health and block changes by exactly block plus heal minus damage. Without
/// damage, health grows by the heal and block by the block stat; when the
/// block (the skill's included) covers the damage, health only gains the heal,
/// and when it does not, the block is used up.
pub proof fn lemma_skill_result(skill: SkillStats, health: int, block: int)
    ensures
        ({
            let gain_block = match skill.block {
                Some(b) => b.0 as int,
                None => 0,
            };
            let gain_health = match skill.heal {
                Some(h) => h.0 as int,
                None => 0,
            };
            let loss = match skill.damage {
                Some(d) => d.0 as int,
                None => 0,
            };
            let r = skill_result(skill, health, block);
            &&& r.0 + r.1 == health + block + gain_block + gain_health - loss
            &&& skill.damage is None ==> r.0 == health + gain_health && r.1 == block + gain_block
            &&& block + gain_block >= loss ==> r.0 == health + gain_health
            &&& skill.damage is Some && block + gain_block <= loss ==> r.1 == 0
        }),
{
}

} // verus!
