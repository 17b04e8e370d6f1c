//! Which units a skill may target, and how the computer picks its skill.
use vstd::prelude::*;


use rand::Rng;

use crate::component::{CastSkillEvent, EntityId, SkillEnt, SkillGroup, Target};

verus! {

/// The tags of a unit that targeting looks at.
#[derive(Debug, Clone, Copy, PartialEq, Eq, Structural)]
pub struct UnitTags {
    pub ent: EntityId,
    pub is_player: bool,
    pub is_ally: bool,
    pub is_enemy: bool,
}

/// The targeting types of the target prompt, seen from the caster's side.
#[derive(Debug, Clone, Copy, PartialEq, Eq, Structural)]
pub enum SetupTarget {
    AllyAndSelf,
    AllyButSelf,
    AllyAOE,
    EnemyAndSelf,
    EnemyButSelf,
    EnemyAOE,
    OnlySelf,
    Any,
    AnyButSelf,
    All,
}

/// The prompt's targeting type for a skill's targeting type: "ally" covers
/// the player's side, a single enemy is any enemy but the caster, and
/// `NoneButSelf` is the caster alone. The prompt has no type for the player
/// alone, so a skill that targets only the player offers the whole player's
/// side (player and allies), like `Ally`.
pub open spec fn prompt_target_of(t: Target) -> SetupTarget {
    match t {
        Target::Player | Target::Ally => SetupTarget::AllyAndSelf,
        Target::AllyButSelf => SetupTarget::AllyButSelf,
        Target::AllyAOE => SetupTarget::AllyAOE,
        Target::Enemy => SetupTarget::EnemyButSelf,
        Target::EnemyAOE => SetupTarget::EnemyAOE,
        Target::Any => SetupTarget::Any,
        Target::AnyButSelf => SetupTarget::AnyButSelf,
        Target::NoneButSelf => SetupTarget::OnlySelf,
    }
}

impl SetupTarget {
    /// The prompt's targeting type for a skill's targeting type.
    pub fn from_target(t: Target) -> (r: SetupTarget)
        ensures
            r == prompt_target_of(t),
    {
        match t {
            Target::Player | Target::Ally => SetupTarget::AllyAndSelf,
            Target::AllyButSelf => SetupTarget::AllyButSelf,
            Target::AllyAOE => SetupTarget::AllyAOE,
            Target::Enemy => SetupTarget::EnemyButSelf,
            Target::EnemyAOE => SetupTarget::EnemyAOE,
            Target::Any => SetupTarget::Any,
            Target::AnyButSelf => SetupTarget::AnyButSelf,
            Target::NoneButSelf => SetupTarget::OnlySelf,
        }
    }
}

/// A rule that says which units may be targeted.
#[derive(Debug, Clone, Copy, PartialEq, Eq, Structural)]
pub enum TargetRule {
    /// The target bucket of a player or ally caster.
    Bucket { target: Target, caster: EntityId },
    /// The targets the computer considers for its skill; `caster` is the
    /// caster that was recorded before, needed only for `NoneButSelf`.
    Ai { target: Target, caster: Option<EntityId> },
    /// The target prompt, for a caster of either side.
    Setup { target: SetupTarget, caster: EntityId, is_enemy_casting: bool },
}

/// Whether `u` may be targeted by a skill of targeting type `target` cast by
/// `caster`.
pub open spec fn bucket_accepts(target: Target, u: UnitTags, caster: EntityId) -> bool {
    match target {
        Target::Player => u.is_player,
        Target::Any => true,
        Target::Ally | Target::AllyAOE => u.ent == caster || u.is_ally,
        Target::AllyButSelf => u.ent != caster && u.is_ally,
        Target::Enemy | Target::EnemyAOE => u.is_enemy,
        Target::AnyButSelf => u.ent != caster,
        Target::NoneButSelf => u.ent == caster,
    }
}

/// Whether the computer may aim a skill of targeting type `target` at `u`.
pub open spec fn ai_accepts(target: Target, u: UnitTags, caster: Option<EntityId>) -> bool {
    match target {
        Target::Player => u.is_player,
        Target::Ally | Target::AllyAOE => u.is_player || u.is_ally,
        Target::AllyButSelf => !u.is_player && u.is_ally,
        Target::Enemy | Target::EnemyAOE => u.is_enemy,
        Target::Any => true,
        Target::AnyButSelf => !u.is_player,
        Target::NoneButSelf => caster == Some(u.ent),
    }
}

/// Whether the target prompt offers `u` for a skill of targeting type
/// `target` cast by `caster`; "ally" and "enemy" are seen from the caster's
/// side.
pub open spec fn setup_accepts(target: SetupTarget, u: UnitTags, caster: EntityId, is_enemy_casting: bool) -> bool {
    if is_enemy_casting {
        match target {
            SetupTarget::AllyAndSelf => u.is_enemy,
            SetupTarget::AllyButSelf => u.is_enemy && caster != u.ent,
            SetupTarget::AllyAOE => u.is_enemy,
            SetupTarget::EnemyAndSelf => !u.is_enemy || caster == u.ent,
            SetupTarget::EnemyButSelf => !u.is_enemy,
            SetupTarget::EnemyAOE => !u.is_enemy,
            SetupTarget::OnlySelf => caster == u.ent,
            SetupTarget::Any => true,
            SetupTarget::AnyButSelf => caster != u.ent,
            SetupTarget::All => true,
        }
    } else {
        match target {
            SetupTarget::AllyAndSelf => u.is_player || u.is_ally,
            SetupTarget::AllyButSelf => (u.is_player || u.is_ally) && caster != u.ent,
            SetupTarget::AllyAOE => u.is_player || u.is_ally,
            SetupTarget::EnemyAndSelf => u.is_enemy || caster == u.ent,
            SetupTarget::EnemyButSelf => u.is_enemy,
            SetupTarget::EnemyAOE => u.is_enemy,
            SetupTarget::OnlySelf => caster == u.ent,
            SetupTarget::Any => true,
            SetupTarget::AnyButSelf => caster != u.ent,
            SetupTarget::All => true,
        }
    }
}

/// Whether `rule` accepts `u`.
pub open spec fn rule_accepts(rule: TargetRule, u: UnitTags) -> bool {
    match rule {
        TargetRule::Bucket { target, caster } => bucket_accepts(target, u, caster),
        TargetRule::Ai { target, caster } => ai_accepts(target, u, caster),
        TargetRule::Setup { target, caster, is_enemy_casting } => setup_accepts(
            target,
            u,
            caster,
            is_enemy_casting,
        ),
    }
}

/// The identifiers of the units that `rule` accepts, in the order of `units`.
pub open spec fn selected(units: Seq<UnitTags>, rule: TargetRule) -> Seq<EntityId> {
    units.filter(|u: UnitTags| rule_accepts(rule, u)).map_values(|u: UnitTags| u.ent)
}

/// A rule can be evaluated without a missing caster.
pub open spec fn rule_ready(rule: TargetRule) -> bool {
    match rule {
        TargetRule::Ai { target, caster } => target == Target::NoneButSelf ==> caster is Some,
        _ => true,
    }
}

fn accepts(rule: &TargetRule, u: &UnitTags) -> (r: bool)
    requires
        rule_ready(*rule),
    ensures
        r == rule_accepts(*rule, *u),
{
    match *rule {
        TargetRule::Bucket { target, caster } => match target {
            Target::Player => u.is_player,
            Target::Any => true,
            Target::Ally | Target::AllyAOE => u.ent == caster || u.is_ally,
            Target::AllyButSelf => u.ent != caster && u.is_ally,
            Target::Enemy | Target::EnemyAOE => u.is_enemy,
            Target::AnyButSelf => u.ent != caster,
            Target::NoneButSelf => u.ent == caster,
        },
        TargetRule::Ai { target, caster } => match target {
            Target::Player => u.is_player,
            Target::Ally | Target::AllyAOE => u.is_player || u.is_ally,
            Target::AllyButSelf => !u.is_player && u.is_ally,
            Target::Enemy | Target::EnemyAOE => u.is_enemy,
            Target::Any => true,
            Target::AnyButSelf => !u.is_player,
            Target::NoneButSelf => u.ent == caster.unwrap(),
        },
        TargetRule::Setup { target, caster, is_enemy_casting } => if is_enemy_casting {
            match target {
                SetupTarget::AllyAndSelf => u.is_enemy,
                SetupTarget::AllyButSelf => u.is_enemy && caster != u.ent,
                SetupTarget::AllyAOE => u.is_enemy,
                SetupTarget::EnemyAndSelf => !u.is_enemy || caster == u.ent,
                SetupTarget::EnemyButSelf => !u.is_enemy,
                SetupTarget::EnemyAOE => !u.is_enemy,
                SetupTarget::OnlySelf => caster == u.ent,
                SetupTarget::Any => true,
                SetupTarget::AnyButSelf => caster != u.ent,
                SetupTarget::All => true,
            }
        } else {
            match target {
                SetupTarget::AllyAndSelf => u.is_player || u.is_ally,
                SetupTarget::AllyButSelf => (u.is_player || u.is_ally) && caster != u.ent,
                SetupTarget::AllyAOE => u.is_player || u.is_ally,
                SetupTarget::EnemyAndSelf => u.is_enemy || caster == u.ent,
                SetupTarget::EnemyButSelf => u.is_enemy,
                SetupTarget::EnemyAOE => u.is_enemy,
                SetupTarget::OnlySelf => caster == u.ent,
                SetupTarget::Any => true,
                SetupTarget::AnyButSelf => caster != u.ent,
                SetupTarget::All => true,
            }
        },
    }
}

/// The identifiers of the units that `rule` accepts, in order.
pub fn select_units(units: &Vec<UnitTags>, rule: TargetRule) -> (r: Vec<EntityId>)
    requires
        rule_ready(rule),
    ensures
        r@ == selected(units@, rule),
{
    let ghost pred = |u: UnitTags| rule_accepts(rule, u);
    let ghost ent = |u: UnitTags| u.ent;
    let mut r: Vec<EntityId> = Vec::new();
    let mut i: usize = 0;
    while i < units.len()
        invariant
            i <= units@.len(),
            r@ == units@.take(i as int).filter(pred).map_values(ent),
            rule_ready(rule),
            pred == (|u: UnitTags| rule_accepts(rule, u)),
            ent == (|u: UnitTags| u.ent),
        decreases units@.len() - i,
    {
        let u = units[i];
        proof {
            assert(u == units@[i as int]);
            assert(pred(u) == rule_accepts(rule, u));
            assert(units@.take(i + 1) =~= units@.take(i as int).push(u));
            Seq::lemma_filter_push(units@.take(i as int), u, pred);
        }
        if accepts(&rule, &u) {
            r.push(u.ent);
            assert(r@ =~= units@.take(i + 1).filter(pred).map_values(ent));
        } else {
            assert(r@ =~= units@.take(i + 1).filter(pred).map_values(ent));
        }
        i = i + 1;
    }
    assert(units@.take(i as int) =~= units@);
    r
}

/// A unit is in a selection exactly when some unit with its identifier is
/// accepted by the rule, and a selection is never longer than the list it
/// was made from.
pub proof fn lemma_selected_members(units: Seq<UnitTags>, rule: TargetRule, e: EntityId)
    ensures
        selected(units, rule).contains(e) <==> exists|i: int|
            0 <= i < units.len() && #[trigger] units[i].ent == e && rule_accepts(rule, units[i]),
        selected(units, rule).len() <= units.len(),
{
    let pred = |u: UnitTags| rule_accepts(rule, u);
    let ent = |u: UnitTags| u.ent;
    let f = units.filter(pred);
    assert(selected(units, rule) == f.map_values(ent));
    units.lemma_filter_len(pred);
    if selected(units, rule).contains(e) {
        let j = choose|j: int| 0 <= j < f.len() && f.map_values(ent)[j] == e;
        units.lemma_filter_pred(pred, j);
        assert(f.contains(f[j]));
        units.lemma_filter_contains_rev(pred, f[j]);
        let i = choose|i: int| 0 <= i < units.len() && units[i] == f[j];
        assert(units[i].ent == e && rule_accepts(rule, units[i]));
    }
    if exists|i: int| 0 <= i < units.len() && #[trigger] units[i].ent == e && rule_accepts(rule, units[i]) {
        let i = choose|i: int| 0 <= i < units.len() && #[trigger] units[i].ent == e && rule_accepts(rule, units[i]);
        units.lemma_filter_contains(pred, i);
        let j = choose|j: int| 0 <= j < f.len() && f[j] == units[i];
        assert(f.map_values(ent)[j] == e);
    }
}

/// The first entry of a non-empty selection is the first unit, in the order
/// of `units`, that the rule accepts.
pub proof fn lemma_selected_first(units: Seq<UnitTags>, rule: TargetRule)
    requires
        selected(units, rule).len() > 0,
    ensures
        exists|i: int|
            0 <= i < units.len() && #[trigger] rule_accepts(rule, units[i]) && units[i].ent == selected(
                units,
                rule,
            )[0] && forall|k: int| 0 <= k < i ==> !rule_accepts(rule, #[trigger] units[k]),
    decreases units.len(),
{
    let pred = |u: UnitTags| rule_accepts(rule, u);
    let init = units.drop_last();
    let x = units.last();
    assert(units =~= init.push(x));
    Seq::lemma_filter_push(init, x, pred);
    if init.filter(pred).len() > 0 {
        assert(selected(init, rule).len() > 0);
        lemma_selected_first(init, rule);
        assert(selected(units, rule)[0] == selected(init, rule)[0]);
        let i = choose|i: int|
            0 <= i < init.len() && #[trigger] rule_accepts(rule, init[i]) && init[i].ent == selected(
                init,
                rule,
            )[0] && forall|k: int| 0 <= k < i ==> !rule_accepts(rule, #[trigger] init[k]);
        assert(units[i] == init[i]);
        assert forall|k: int| 0 <= k < i implies !rule_accepts(rule, #[trigger] units[k]) by {
            assert(units[k] == init[k]);
        }
    } else {
        assert(pred(x));
        assert(units.filter(pred) =~= seq![x]);
        let i = units.len() - 1;
        assert forall|k: int| 0 <= k < i implies !rule_accepts(rule, #[trigger] units[k]) by {
            assert(units[k] == init[k]);
            if rule_accepts(rule, init[k]) {
                init.lemma_filter_contains(pred, k);
            }
        }
        assert(rule_accepts(rule, units[i]));
    }
}

/// The target prompt, seen from the caster's side. The caster's own side is
/// the player and the allies for a caster of the player's side, and the
/// enemies for an enemy caster; the other side is the enemies, or every unit
/// that is not an enemy. The ally prompts (`AllyAndSelf`, `AllyAOE`) offer
/// exactly the own side, `AllyButSelf` the own side without the caster; the
/// enemy prompts (`EnemyButSelf`, `EnemyAOE`) offer exactly the other side,
/// `EnemyAndSelf` the other side and the caster; `OnlySelf` offers the caster
/// alone, `AnyButSelf` every unit but the caster, `Any` and `All` every unit.
pub proof fn lemma_setup_sides(target: SetupTarget, u: UnitTags, caster: EntityId, is_enemy_casting: bool)
    ensures
        ({
            let own_side = if is_enemy_casting {
                u.is_enemy
            } else {
                u.is_player || u.is_ally
            };
            let other_side = if is_enemy_casting {
                !u.is_enemy
            } else {
                u.is_enemy
            };
            let offered = setup_accepts(target, u, caster, is_enemy_casting);
            &&& (target == SetupTarget::AllyAndSelf || target == SetupTarget::AllyAOE) ==> (offered
                <==> own_side)
            &&& target == SetupTarget::AllyButSelf ==> (offered <==> own_side && u.ent != caster)
            &&& (target == SetupTarget::EnemyButSelf || target == SetupTarget::EnemyAOE) ==> (offered
                <==> other_side)
            &&& target == SetupTarget::EnemyAndSelf ==> (offered <==> other_side || u.ent == caster)
            &&& target == SetupTarget::OnlySelf ==> (offered <==> u.ent == caster)
            &&& target == SetupTarget::AnyButSelf ==> (offered <==> u.ent != caster)
            &&& (target == SetupTarget::Any || target == SetupTarget::All) ==> offered
        }),
{
}

/// An area prompt offers the same units as the single-target prompt of its
/// side that includes the caster's side: `AllyAOE` as `AllyAndSelf`, and
/// `EnemyAOE` as `EnemyButSelf`, whoever casts.
pub proof fn lemma_setup_area_prompts(units: Seq<UnitTags>, caster: EntityId, is_enemy_casting: bool)
    ensures
        selected(units, TargetRule::Setup { target: SetupTarget::AllyAOE, caster, is_enemy_casting })
            == selected(units, TargetRule::Setup { target: SetupTarget::AllyAndSelf, caster, is_enemy_casting }),
        selected(units, TargetRule::Setup { target: SetupTarget::EnemyAOE, caster, is_enemy_casting })
            == selected(units, TargetRule::Setup { target: SetupTarget::EnemyButSelf, caster, is_enemy_casting }),
{
    let a1 = TargetRule::Setup { target: SetupTarget::AllyAOE, caster, is_enemy_casting };
    let a2 = TargetRule::Setup { target: SetupTarget::AllyAndSelf, caster, is_enemy_casting };
    let e1 = TargetRule::Setup { target: SetupTarget::EnemyAOE, caster, is_enemy_casting };
    let e2 = TargetRule::Setup { target: SetupTarget::EnemyButSelf, caster, is_enemy_casting };
    assert((|u: UnitTags| rule_accepts(a1, u)) =~= (|u: UnitTags| rule_accepts(a2, u)));
    assert((|u: UnitTags| rule_accepts(e1, u)) =~= (|u: UnitTags| rule_accepts(e2, u)));
}

/// The target bucket of a player's-side caster: `Player` holds the player,
/// `Ally` the caster and the allies and `AllyAOE` the same, `AllyButSelf` the
/// allies but the caster, `Enemy` and `EnemyAOE` the enemies, `Any` everyone,
/// `AnyButSelf` everyone but the caster, `NoneButSelf` the caster alone.
pub proof fn lemma_bucket_rules(u: UnitTags, caster: EntityId)
    ensures
        bucket_accepts(Target::Player, u, caster) <==> u.is_player,
        bucket_accepts(Target::Ally, u, caster) <==> u.ent == caster || u.is_ally,
        bucket_accepts(Target::AllyAOE, u, caster) == bucket_accepts(Target::Ally, u, caster),
        bucket_accepts(Target::AllyButSelf, u, caster) <==> bucket_accepts(Target::Ally, u, caster)
            && u.ent != caster,
        bucket_accepts(Target::Enemy, u, caster) <==> u.is_enemy,
        bucket_accepts(Target::EnemyAOE, u, caster) == bucket_accepts(Target::Enemy, u, caster),
        bucket_accepts(Target::Any, u, caster),
        bucket_accepts(Target::AnyButSelf, u, caster) <==> u.ent != caster,
        bucket_accepts(Target::NoneButSelf, u, caster) <==> u.ent == caster,
{
}

/// The units the computer considers: `Player` the player, `Ally` and
/// `AllyAOE` the player's side (player and allies), `AllyButSelf` the allies
/// that are not the player, `Enemy` and `EnemyAOE` the enemies, `Any` every
/// unit, `AnyButSelf` every unit but the player, `NoneButSelf` the recorded
/// caster alone.
pub proof fn lemma_ai_rules(u: UnitTags, caster: Option<EntityId>)
    ensures
        ai_accepts(Target::Player, u, caster) <==> u.is_player,
        ai_accepts(Target::Ally, u, caster) <==> u.is_player || u.is_ally,
        ai_accepts(Target::AllyAOE, u, caster) == ai_accepts(Target::Ally, u, caster),
        ai_accepts(Target::AllyButSelf, u, caster) <==> u.is_ally && !u.is_player,
        ai_accepts(Target::Enemy, u, caster) <==> u.is_enemy,
        ai_accepts(Target::EnemyAOE, u, caster) == ai_accepts(Target::Enemy, u, caster),
        ai_accepts(Target::Any, u, caster),
        ai_accepts(Target::AnyButSelf, u, caster) <==> !u.is_player,
        ai_accepts(Target::NoneButSelf, u, caster) <==> caster == Some(u.ent),
{
}

/// The units that can be chosen for a given target type, when cast by
/// `current_caster_ent`.
pub fn gen_target_bucket(units: &Vec<UnitTags>, target_type: Target, current_caster_ent: Option<EntityId>) -> (r: Vec<EntityId>)
    requires
        current_caster_ent is Some,
    ensures
        r@ == selected(units@, TargetRule::Bucket { target: target_type, caster: current_caster_ent->0 }),
{
    let caster = current_caster_ent.unwrap();
    select_units(units, TargetRule::Bucket { target: target_type, caster })
}

/// The units that the target prompt offers for a given target type, when cast
/// by `caster_ent` of the enemy side (`is_enemy_casting`) or of the player's
/// side.
pub fn setup_target_bucket(
    units: &Vec<UnitTags>,
    target_type: SetupTarget,
    caster_ent: EntityId,
    is_enemy_casting: bool,
) -> (r: Vec<EntityId>)
    ensures
        r@ == selected(units@, TargetRule::Setup { target: target_type, caster: caster_ent, is_enemy_casting }),
{
    select_units(units, TargetRule::Setup { target: target_type, caster: caster_ent, is_enemy_casting })
}

/// A skill as the computer sees it when choosing one.
#[derive(Debug, Clone, Copy, PartialEq, Eq, Structural)]
pub struct SkillOption {
    pub ent: EntityId,
    pub group: SkillGroup,
    pub target: Target,
}

/// The skill group the computer draws from: allies use ally skills, enemies
/// enemy skills, and any other unit universal ones.
pub open spec fn group_for(is_ally: bool, is_enemy: bool) -> SkillGroup {
    if is_ally {
        SkillGroup::Ally
    } else if is_enemy {
        SkillGroup::Enemy
    } else {
        SkillGroup::Universal
    }
}

/// The skill group the computer draws from for a unit with these tags.
pub fn ai_skill_group(is_ally: bool, is_enemy: bool) -> (r: SkillGroup)
    ensures
        r == group_for(is_ally, is_enemy),
{
    if is_ally {
        SkillGroup::Ally
    } else if is_enemy {
        SkillGroup::Enemy
    } else {
        SkillGroup::Universal
    }
}

/// The skills of a group, in order.
pub open spec fn pool_of(skills: Seq<SkillOption>, group: SkillGroup) -> Seq<SkillOption> {
    skills.filter(|s: SkillOption| s.group == group)
}

/// All skills of `group`, in order.
pub fn skill_pool(skills: &Vec<SkillOption>, group: SkillGroup) -> (r: Vec<SkillOption>)
    ensures
        r@ == pool_of(skills@, group),
{
    let ghost pred = |s: SkillOption| s.group == group;
    let mut r: Vec<SkillOption> = Vec::new();
    let mut i: usize = 0;
    while i < skills.len()
        invariant
            i <= skills@.len(),
            r@ == skills@.take(i as int).filter(pred),
            pred == (|s: SkillOption| s.group == group),
        decreases skills@.len() - i,
    {
        let s = skills[i];
        proof {
            assert(s == skills@[i as int]);
            assert(pred(s) == (s.group == group));
            assert(skills@.take(i + 1) =~= skills@.take(i as int).push(s));
            Seq::lemma_filter_push(skills@.take(i as int), s, pred);
        }
        if s.group == group {
            r.push(s);
        }
        i = i + 1;
    }
    assert(skills@.take(i as int) =~= skills@);
    r
}

/// The computer may cast the skill `s`: a recorded caster exists where the
/// skill targets only its caster, and some unit can be targeted.
pub open spec fn castable(s: SkillOption, units: Seq<UnitTags>, caster: Option<EntityId>) -> bool {
    &&& (s.target == Target::NoneButSelf ==> caster is Some)
    &&& selected(units, TargetRule::Ai { target: s.target, caster }).len() > 0
}

/// Whether the computer may cast the skill `s` on one of `units`.
pub fn castable_by_ai(s: &SkillOption, units: &Vec<UnitTags>, caster: Option<EntityId>) -> (r: bool)
    ensures
        r == castable(*s, units@, caster),
{
    if s.target == Target::NoneButSelf && caster.is_none() {
        return false;
    }
    let targets = select_units(units, TargetRule::Ai { target: s.target, caster });
    targets.len() > 0
}

/// The cast the computer makes with skill number `pick` of its pool: the first
/// unit that the skill can target is the target.
pub open spec fn ai_cast(
    unit: UnitTags,
    skills: Seq<SkillOption>,
    units: Seq<UnitTags>,
    caster: Option<EntityId>,
    pick: int,
) -> CastSkillEvent {
    let skill = pool_of(skills, group_for(unit.is_ally, unit.is_enemy))[pick];
    CastSkillEvent {
        skill_ent: SkillEnt(skill.ent),
        target: selected(units, TargetRule::Ai { target: skill.target, caster })[0],
        caster: unit.ent,
    }
}

/// The computer plays by the rules: it casts one of the given skills, of its
/// own group, at one of the given units that this skill may target, and the
/// caster is the acting unit.
pub proof fn lemma_ai_cast_follows_rules(
    unit: UnitTags,
    skills: Seq<SkillOption>,
    units: Seq<UnitTags>,
    caster: Option<EntityId>,
    pick: int,
)
    requires
        0 <= pick < pool_of(skills, group_for(unit.is_ally, unit.is_enemy)).len(),
        castable(pool_of(skills, group_for(unit.is_ally, unit.is_enemy))[pick], units, caster),
    ensures
        ({
            let group = group_for(unit.is_ally, unit.is_enemy);
            let skill = pool_of(skills, group)[pick];
            let cast = ai_cast(unit, skills, units, caster, pick);
            &&& skills.contains(skill)
            &&& skill.group == group
            &&& cast.skill_ent.0 == skill.ent
            &&& exists|u: UnitTags|
                #![trigger units.contains(u)]
                units.contains(u) && ai_accepts(skill.target, u, caster) && u.ent == cast.target
            &&& cast.caster == unit.ent
            &&& exists|i: int|
                0 <= i < units.len() && #[trigger] ai_accepts(skill.target, units[i], caster)
                    && units[i].ent == cast.target && forall|k: int|
                    0 <= k < i ==> !ai_accepts(skill.target, #[trigger] units[k], caster)
        }),
{
    broadcast use vstd::seq_lib::group_filter_ensures;

    let group = group_for(unit.is_ally, unit.is_enemy);
    let gp = |s: SkillOption| s.group == group;
    let pool = skills.filter(gp);
    let skill = pool[pick];
    assert(pool.contains(skill));
    skills.lemma_filter_contains_rev(gp, skill);
    let rule = TargetRule::Ai { target: skill.target, caster };
    let up = |u: UnitTags| rule_accepts(rule, u);
    let sel = units.filter(up);
    assert(sel.len() > 0);
    let u = sel[0];
    assert(sel.contains(u));
    units.lemma_filter_contains_rev(up, u);
    assert(up(u));
    assert(units.contains(u) && ai_accepts(skill.target, u, caster));
    lemma_selected_first(units, rule);
}

/// The computer draws from its own group's skills: an ally from the ally
/// skills, an enemy (that is not an ally) from the enemy skills, and any other
/// unit from the universal ones. A skill is in a group's pool exactly when it
/// is one of the skills and belongs to that group.
pub proof fn lemma_skill_groups(is_ally: bool, is_enemy: bool, skills: Seq<SkillOption>, s: SkillOption, g: SkillGroup)
    ensures
        is_ally ==> group_for(is_ally, is_enemy) == SkillGroup::Ally,
        !is_ally && is_enemy ==> group_for(is_ally, is_enemy) == SkillGroup::Enemy,
        !is_ally && !is_enemy ==> group_for(is_ally, is_enemy) == SkillGroup::Universal,
        pool_of(skills, g).contains(s) <==> skills.contains(s) && s.group == g,
{
    broadcast use vstd::seq_lib::group_filter_ensures;

    let gp = |x: SkillOption| x.group == g;
    if pool_of(skills, g).contains(s) {
        skills.lemma_filter_contains_rev(gp, s);
        let j = choose|j: int| 0 <= j < skills.filter(gp).len() && skills.filter(gp)[j] == s;
        assert(gp(skills.filter(gp)[j]));
    }
    if skills.contains(s) && s.group == g {
        let i = choose|i: int| 0 <= i < skills.len() && skills[i] == s;
        skills.lemma_filter_contains(gp, i);
    }
}

/// The cast the computer makes with skill number `pick` of the pool of
/// `unit`'s group.
pub fn choose_skill_with(
    unit: &UnitTags,
    skills: &Vec<SkillOption>,
    units: &Vec<UnitTags>,
    current_caster: Option<EntityId>,
    pick: usize,
) -> (r: CastSkillEvent)
    requires
        pick < pool_of(skills@, group_for(unit.is_ally, unit.is_enemy)).len(),
        castable(pool_of(skills@, group_for(unit.is_ally, unit.is_enemy))[pick as int], units@, current_caster),
    ensures
        r == ai_cast(*unit, skills@, units@, current_caster, pick as int),
{
    let group = ai_skill_group(unit.is_ally, unit.is_enemy);
    let pool = skill_pool(skills, group);
    let skill = pool[pick];
    let targets = select_units(units, TargetRule::Ai { target: skill.target, caster: current_caster });
    CastSkillEvent { skill_ent: SkillEnt(skill.ent), target: targets[0], caster: unit.ent }
}

#[verifier::external_type_specification]
#[verifier::external_body]
pub struct ExThreadRng(rand::rngs::ThreadRng);

/// Calls `rand::thread_rng`, which hands out the thread's random number
/// generator. Nothing is stated of it: the library only draws from it.
#[verifier::external_body]
fn thread_rng() -> rand::rngs::ThreadRng {
    rand::thread_rng()
}

/// Draws a position in `0..n` with `rand::Rng::gen_range`. The draw is
/// random, so the contract states only that it lies in the range, as rand's
/// documentation promises; the range is never empty, on which `gen_range`
/// panics.
#[verifier::external_body]
fn gen_index(rng: &mut rand::rngs::ThreadRng, n: usize) -> (r: usize)
    requires
        n > 0,
    ensures
        r < n,
{
    rng.gen_range(0..n)
}

/// Draws at random the position, in the pool of `unit`'s group, of the skill
/// the computer casts.
pub fn draw_skill(unit: &UnitTags, skills: &Vec<SkillOption>) -> (r: usize)
    requires
        pool_of(skills@, group_for(unit.is_ally, unit.is_enemy)).len() > 0,
    ensures
        r < pool_of(skills@, group_for(unit.is_ally, unit.is_enemy)).len(),
{
    let group = ai_skill_group(unit.is_ally, unit.is_enemy);
    let pool = skill_pool(skills, group);
    let mut rng = thread_rng();
    gen_index(&mut rng, pool.len())
}

/// The computer picks a skill of `unit`'s group at random and casts it on the
/// first unit that the skill can target.
pub fn choose_skill(
    unit: &UnitTags,
    skills: &Vec<SkillOption>,
    units: &Vec<UnitTags>,
    current_caster: Option<EntityId>,
) -> (r: CastSkillEvent)
    requires
        pool_of(skills@, group_for(unit.is_ally, unit.is_enemy)).len() > 0,
        forall|i: int|
            0 <= i < pool_of(skills@, group_for(unit.is_ally, unit.is_enemy)).len() ==> castable(
                #[trigger] pool_of(skills@, group_for(unit.is_ally, unit.is_enemy))[i],
                units@,
                current_caster,
            ),
    ensures
        exists|pick: int|
            0 <= pick < pool_of(skills@, group_for(unit.is_ally, unit.is_enemy)).len() && r
                == ai_cast(*unit, skills@, units@, current_caster, pick),
{
    let pick = draw_skill(unit, skills);
    assert(castable(pool_of(skills@, group_for(unit.is_ally, unit.is_enemy))[pick as int], units@, current_caster));
    choose_skill_with(unit, skills, units, current_caster, pick)
}

} // verus!
