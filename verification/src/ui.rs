//! The decisions of the combat interface: skill buttons, right clicks, and
//! the texts shown on buttons, bars and the skill context window.
use vstd::prelude::*;


use crate::combat::ControlMutex;
use crate::component::{
    Block, Channel, Damage, EntityId, Heal, Health, LearnableArchetypes, Learned, Mana, SkillEnt, Target,
    UnitArchetype,
};
use crate::text::{decimal, push_decimal, str_to_string};
use crate::traits::{block_text, channel_text, damage_text, heal_text, OptionDescription};

verus! {

/// Whether the skill context window is shown.
#[derive(Debug, Clone, Copy, PartialEq, Eq, Hash, Structural)]
pub enum SkillContextStatus {
    Open,
    Closed,
}

/// How the pointer interacts with a button.
#[derive(Debug, Clone, Copy, PartialEq, Eq, Structural)]
pub enum ButtonInteraction {
    Clicked,
    Hovered,
    Idle,
}

/// What a click on a skill button does.
#[derive(Debug, Clone, Copy, PartialEq, Eq, Structural)]
pub enum SkillClick {
    /// The skill shown in the context window was clicked again: it becomes the
    /// selected skill, the context window and the skill wheel close and the
    /// target prompt opens.
    SelectSkill(EntityId),
    /// Another skill was clicked while the context window is open: the window
    /// is drawn again for this skill.
    Redraw(SkillEnt),
    /// No context window is open: it opens for this skill.
    Open(SkillEnt),
}

/// The effect of clicking `skill` while the context window is in `context`
/// and `history` holds the skill clicked before.
pub open spec fn skill_click(context: SkillContextStatus, history: Option<SkillEnt>, skill: SkillEnt) -> SkillClick {
    match context {
        SkillContextStatus::Open => if history == Some(skill) {
            SkillClick::SelectSkill(skill.0)
        } else {
            SkillClick::Redraw(skill)
        },
        SkillContextStatus::Closed => SkillClick::Open(skill),
    }
}

/// The first click on a skill shows its context window and the second opens
/// the target prompt: with the window closed, a click opens the window for
/// the clicked skill whatever was clicked before; a skill is selected only
/// when the window is open and the same skill was clicked last; a click on
/// another skill while the window is open draws the window again for it. So
/// two clicks on one skill, starting with the window closed, first open the
/// window and then select the skill.
pub proof fn lemma_skill_click(context: SkillContextStatus, history: Option<SkillEnt>, skill: SkillEnt)
    ensures
        context == SkillContextStatus::Closed ==> skill_click(context, history, skill) == SkillClick::Open(
            skill,
        ),
        skill_click(context, history, skill) is SelectSkill ==> context == SkillContextStatus::Open
            && history == Some(skill) && skill_click(context, history, skill) == SkillClick::SelectSkill(
            skill.0,
        ),
        context == SkillContextStatus::Open && history == Some(skill) ==> skill_click(
            context,
            history,
            skill,
        ) == SkillClick::SelectSkill(skill.0),
        context == SkillContextStatus::Open && history != Some(skill) ==> skill_click(
            context,
            history,
            skill,
        ) == SkillClick::Redraw(skill),
        skill_click(SkillContextStatus::Closed, history, skill) == SkillClick::Open(skill)
            && skill_click(SkillContextStatus::Open, Some(skill), skill) == SkillClick::SelectSkill(skill.0),
{
}

/// A click on a skill button: shows the skill's context window on the first
/// click, and opens the target prompt on a second click on the same skill.
/// The clicked skill is remembered for the next click.
pub fn skill_button_interact(
    context: SkillContextStatus,
    history: &mut Option<SkillEnt>,
    skill: SkillEnt,
) -> (r: SkillClick)
    ensures
        r == skill_click(context, *old(history), skill),
        *final(history) == Some(skill),
        context == SkillContextStatus::Closed ==> r == SkillClick::Open(skill),
        context == SkillContextStatus::Open && *old(history) == Some(skill) ==> r
            == SkillClick::SelectSkill(skill.0),
        context == SkillContextStatus::Open && *old(history) != Some(skill) ==> r == SkillClick::Redraw(
            skill,
        ),
        r is SelectSkill ==> context == SkillContextStatus::Open && *old(history) == Some(skill),
{
    let r = match context {
        SkillContextStatus::Open => {
            let same = match *history {
                Some(h) => h.0 == skill.0,
                None => false,
            };
            if same {
                SkillClick::SelectSkill(skill.0)
            } else {
                SkillClick::Redraw(skill)
            }
        },
        SkillContextStatus::Closed => SkillClick::Open(skill),
    };
    *history = Some(skill);
    r
}

/// What a right click does.
#[derive(Debug, Clone, Copy, PartialEq, Eq, Structural)]
pub enum RightClick {
    /// The target prompt closes and the skill wheel opens again.
    HidePrompt,
    /// The skill context window closes.
    HideContext,
    /// Nothing happens.
    Ignore,
}

/// Handles a right click: it hides the target prompt if open, otherwise the
/// skill context window if open.
pub fn mouse_input_interact(prompt_open: bool, context: SkillContextStatus) -> (r: RightClick)
    ensures
        prompt_open ==> r == RightClick::HidePrompt,
        !prompt_open && context == SkillContextStatus::Open ==> r == RightClick::HideContext,
        !prompt_open && context == SkillContextStatus::Closed ==> r == RightClick::Ignore,
{
    if prompt_open {
        RightClick::HidePrompt
    } else {
        match context {
            SkillContextStatus::Open => RightClick::HideContext,
            SkillContextStatus::Closed => RightClick::Ignore,
        }
    }
}

/// The text of the debug combat button: what the pointer does with it, or,
/// at rest, which state has control of the game.
pub fn combat_button_text(interaction: ButtonInteraction, control: ControlMutex) -> (s: String)
    ensures
        s@ == match interaction {
            ButtonInteraction::Clicked => "clicked"@,
            ButtonInteraction::Hovered => "hovered"@,
            ButtonInteraction::Idle => match control {
                ControlMutex::Unit => "unit"@,
                ControlMutex::SystemTurn => "system"@,
                ControlMutex::Startup => "startup"@,
                ControlMutex::SystemReward => "reward"@,
            },
        },
{
    match interaction {
        ButtonInteraction::Clicked => str_to_string("clicked"),
        ButtonInteraction::Hovered => str_to_string("hovered"),
        ButtonInteraction::Idle => control.label(),
    }
}

/// The name of a targeting type.
pub open spec fn target_name(t: Target) -> Seq<char> {
    match t {
        Target::Player => "Player"@,
        Target::Ally => "Ally"@,
        Target::AllyButSelf => "AllyButSelf"@,
        Target::AllyAOE => "AllyAOE"@,
        Target::Enemy => "Enemy"@,
        Target::EnemyAOE => "EnemyAOE"@,
        Target::Any => "Any"@,
        Target::AnyButSelf => "AnyButSelf"@,
        Target::NoneButSelf => "NoneButSelf"@,
    }
}

impl Target {
    /// The name of the targeting type.
    pub fn name(&self) -> (s: &'static str)
        ensures
            s@ == target_name(*self),
    {
        match self {
            Target::Player => "Player",
            Target::Ally => "Ally",
            Target::AllyButSelf => "AllyButSelf",
            Target::AllyAOE => "AllyAOE",
            Target::Enemy => "Enemy",
            Target::EnemyAOE => "EnemyAOE",
            Target::Any => "Any",
            Target::AnyButSelf => "AnyButSelf",
            Target::NoneButSelf => "NoneButSelf",
        }
    }
}

/// The description of an optional stat: its text, or nothing.
pub open spec fn optional_text<A>(o: Option<A>, text: spec_fn(A) -> Seq<char>) -> Seq<char> {
    match o {
        Some(v) => text(v),
        None => Seq::<char>::empty(),
    }
}

/// The text of the skill context window: one line each for damage, block,
/// heal and channel (empty when the skill lacks the stat), then the
/// targeting type.
pub open spec fn skill_info(
    damage: Option<Damage>,
    block: Option<Block>,
    heal: Option<Heal>,
    channel: Option<Channel>,
    target: Target,
) -> Seq<char> {
    optional_text(damage, |d: Damage| damage_text(d.0 as int)) + "\n"@ + optional_text(
        block,
        |b: Block| block_text(b.0 as int),
    ) + "\n"@ + optional_text(heal, |h: Heal| heal_text(h.0 as int)) + "\n"@ + optional_text(
        channel,
        |c: Channel| channel_text(c.0 as int),
    ) + "\n"@ + target_name(target)
}

/// The text of the skill context window for a skill with these stats.
pub fn skill_info_text(
    damage: Option<&Damage>,
    block: Option<&Block>,
    heal: Option<&Heal>,
    channel: Option<&Channel>,
    target: &Target,
) -> (s: String)
    ensures
        s@ == skill_info(
            match damage {
                Some(d) => Some(*d),
                None => None,
            },
            match block {
                Some(b) => Some(*b),
                None => None,
            },
            match heal {
                Some(h) => Some(*h),
                None => None,
            },
            match channel {
                Some(c) => Some(*c),
                None => None,
            },
            *target,
        ),
{
    let mut s = damage.unwrap_description();
    s.append("\n");
    let b = block.unwrap_description();
    s.append(b.as_str());
    s.append("\n");
    let h = heal.unwrap_description();
    s.append(h.as_str());
    s.append("\n");
    let c = channel.unwrap_description();
    s.append(c.as_str());
    s.append("\n");
    s.append(target.name());
    s
}

/// A skill as the skill wheel sees it.
#[derive(Debug, Clone)]
pub struct WheelSkill {
    pub ent: EntityId,
    pub learned: Learned,
    pub learnable: LearnableArchetypes,
}

/// A skill is on the wheel of a unit of archetype `archetype` when it is
/// known (basic or learned) and units of that archetype can learn it.
pub open spec fn on_wheel(s: WheelSkill, archetype: UnitArchetype) -> bool {
    &&& (s.learned == Learned::Basic || s.learned == Learned::Learned)
    &&& s.learnable.0@.contains(archetype)
}

/// The skills shown on the skill wheel of a unit of archetype `archetype`,
/// in order.
pub open spec fn wheel(skills: Seq<WheelSkill>, archetype: UnitArchetype) -> Seq<EntityId> {
    skills.filter(|s: WheelSkill| on_wheel(s, archetype)).map_values(|s: WheelSkill| s.ent)
}

/// The wheel shows a skill exactly when it is known (basic or learned, never
/// one not learned yet) and its archetypes include the unit's: a skill is on
/// the wheel when some such skill has its identifier, and the wheel never
/// shows more skills than there are.
pub proof fn lemma_wheel_members(skills: Seq<WheelSkill>, archetype: UnitArchetype, e: EntityId)
    ensures
        wheel(skills, archetype).contains(e) <==> exists|i: int|
            0 <= i < skills.len() && #[trigger] skills[i].ent == e && skills[i].learned
                != Learned::NotLearned && skills[i].learnable.0@.contains(archetype),
        wheel(skills, archetype).len() <= skills.len(),
{
    let pred = |s: WheelSkill| on_wheel(s, archetype);
    let ent = |s: WheelSkill| s.ent;
    let f = skills.filter(pred);
    assert(wheel(skills, archetype) == f.map_values(ent));
    skills.lemma_filter_len(pred);
    if wheel(skills, archetype).contains(e) {
        let j = choose|j: int| 0 <= j < f.len() && f.map_values(ent)[j] == e;
        skills.lemma_filter_pred(pred, j);
        assert(f.contains(f[j]));
        skills.lemma_filter_contains_rev(pred, f[j]);
        let i = choose|i: int| 0 <= i < skills.len() && skills[i] == f[j];
        assert(skills[i].ent == e && on_wheel(skills[i], archetype));
    }
    if exists|i: int|
        0 <= i < skills.len() && #[trigger] skills[i].ent == e && skills[i].learned != Learned::NotLearned
            && skills[i].learnable.0@.contains(archetype) {
        let i = choose|i: int|
            0 <= i < skills.len() && #[trigger] skills[i].ent == e && skills[i].learned
                != Learned::NotLearned && skills[i].learnable.0@.contains(archetype);
        assert(pred(skills[i]));
        skills.lemma_filter_contains(pred, i);
        let j = choose|j: int| 0 <= j < f.len() && f[j] == skills[i];
        assert(f.map_values(ent)[j] == e);
    }
}

/// Whether units of `archetype` can learn a skill that `learnable` lists.
pub fn can_learn(learnable: &LearnableArchetypes, archetype: UnitArchetype) -> (r: bool)
    ensures
        r == learnable.0@.contains(archetype),
{
    let mut i: usize = 0;
    while i < learnable.0.len()
        invariant
            i <= learnable.0@.len(),
            forall|j: int| 0 <= j < i ==> learnable.0@[j] != archetype,
        decreases learnable.0@.len() - i,
    {
        if learnable.0[i] == archetype {
            assert(learnable.0@[i as int] == archetype);
            return true;
        }
        i = i + 1;
    }
    false
}

/// The skills to draw on the skill wheel of the current unit, whose archetype
/// is `archetype`: the known skills that this archetype can learn, in order.
pub fn draw_skill_icons(skills: &Vec<WheelSkill>, archetype: UnitArchetype) -> (r: Vec<EntityId>)
    ensures
        r@ == wheel(skills@, archetype),
{
    let ghost pred = |s: WheelSkill| on_wheel(s, archetype);
    let ghost ent = |s: WheelSkill| s.ent;
    let mut r: Vec<EntityId> = Vec::new();
    let mut i: usize = 0;
    while i < skills.len()
        invariant
            i <= skills@.len(),
            pred == (|s: WheelSkill| on_wheel(s, archetype)),
            ent == (|s: WheelSkill| s.ent),
            r@ == skills@.take(i as int).filter(pred).map_values(ent),
        decreases skills@.len() - i,
    {
        let s = &skills[i];
        proof {
            assert(skills@.take(i + 1) =~= skills@.take(i as int).push(*s));
            Seq::lemma_filter_push(skills@.take(i as int), *s, pred);
        }
        let known = match s.learned {
            Learned::Basic => true,
            Learned::Learned => true,
            Learned::NotLearned => false,
        };
        if known && can_learn(&s.learnable, archetype) {
            r.push(s.ent);
        }
        assert(r@ =~= skills@.take(i + 1).filter(pred).map_values(ent));
        i = i + 1;
    }
    assert(skills@.take(i as int) =~= skills@);
    r
}

/// The text of the skill context window of the menu: "Deal {d} points of
/// Damage", "Grant {b} points of Block" and "Heal the target for {h} points",
/// each line empty where the skill lacks the stat, joined by line breaks.
pub open spec fn skill_context(damage: Option<Damage>, block: Option<Block>, heal: Option<Heal>) -> Seq<char> {
    optional_text(damage, |d: Damage| "Deal "@ + decimal(d.0 as int) + " points of Damage"@) + "\n"@
        + optional_text(block, |b: Block| "Grant "@ + decimal(b.0 as int) + " points of Block"@) + "\n"@
        + optional_text(heal, |h: Heal| "Heal the target for "@ + decimal(h.0 as int) + " points"@)
}

/// The text of the menu's skill context window for a skill with these stats.
pub fn skill_context_text(damage: Option<&Damage>, block: Option<&Block>, heal: Option<&Heal>) -> (s: String)
    ensures
        s@ == skill_context(
            match damage {
                Some(d) => Some(*d),
                None => None,
            },
            match block {
                Some(b) => Some(*b),
                None => None,
            },
            match heal {
                Some(h) => Some(*h),
                None => None,
            },
        ),
{
    let mut s = String::new();
    if let Some(d) = damage {
        s.append("Deal ");
        push_decimal(&mut s, d.0 as i64);
        s.append(" points of Damage");
    }
    s.append("\n");
    if let Some(b) = block {
        s.append("Grant ");
        push_decimal(&mut s, b.0 as i64);
        s.append(" points of Block");
    }
    s.append("\n");
    if let Some(h) = heal {
        s.append("Heal the target for ");
        push_decimal(&mut s, h.0 as i64);
        s.append(" points");
    }
    s
}

/// "HP: {health}", the text of a health bar.
pub fn hp_label(health: &Health) -> (s: String)
    ensures
        s@ == "HP: "@ + decimal(health.0 as int),
{
    let mut s = str_to_string("HP: ");
    push_decimal(&mut s, health.0 as i64);
    s
}

/// "MP: {mana}", the text of a mana bar.
pub fn mp_label(mana: &Mana) -> (s: String)
    ensures
        s@ == "MP: "@ + decimal(mana.0 as int),
{
    let mut s = str_to_string("MP: ");
    push_decimal(&mut s, mana.0 as i64);
    s
}

} // verus!
