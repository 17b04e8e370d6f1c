//! The turn cycle of a fight: who acts, what a cast skill triggers, and how
//! the control passes between units and the system.
use vstd::prelude::*;

use crate::component::{Block, Casting, CastSkillEvent, Channel, EntityId, Health, SkillEnt};
use crate::eval::{apply_skill, skill_fits, skill_in_range, skill_result, SkillStats};
use crate::error::DataError;
use crate::text::str_to_string;
use crate::turn_order::{following, TurnOrderList};

verus! {

/// What has control of the game: a unit (player, ally or enemy) acting, or
/// the system evaluating a turn or handing out rewards.
#[derive(Debug, Clone, Copy, PartialEq, Eq, Hash, Structural)]
pub enum ControlMutex {
    Startup,
    Unit,
    SystemTurn,
    SystemReward,
}

impl ControlMutex {
    /// A short name of the state, shown on the debug combat button.
    pub fn label(&self) -> (s: String)
        ensures
            s@ == match *self {
                ControlMutex::Unit => "unit"@,
                ControlMutex::SystemTurn => "system"@,
                ControlMutex::Startup => "startup"@,
                ControlMutex::SystemReward => "reward"@,
            },
    {
        match self {
            ControlMutex::Unit => str_to_string("unit"),
            ControlMutex::SystemTurn => str_to_string("system"),
            ControlMutex::Startup => str_to_string("startup"),
            ControlMutex::SystemReward => str_to_string("reward"),
        }
    }
}

/// A unit has been killed.
#[derive(Debug, Clone, Copy, PartialEq, Eq, Structural)]
pub struct UnitKilledEvent(pub EntityId);

/// The current turn is over.
#[derive(Debug, Clone, Copy, PartialEq, Eq, Structural)]
pub struct TurnEndEvent;

/// The computer should choose a skill for the current unit.
#[derive(Debug, Clone, Copy, PartialEq, Eq, Structural)]
pub struct ChooseAISkillEvent;

/// A skill takes effect now.
#[derive(Debug, Clone, Copy, PartialEq, Eq, Structural)]
pub struct EvalSkillEvent {
    pub skill: EntityId,
    pub target: EntityId,
    pub caster: EntityId,
}

/// The health or mana shown for a unit has changed.
#[derive(Debug, Clone, Copy, PartialEq, Eq, Structural)]
pub struct UIBarChangeEvent {
    pub master_unit: EntityId,
}

/// A channeled skill has been cast.
#[derive(Debug, Clone, Copy, PartialEq, Eq, Structural)]
pub struct EvalChannelingSkillEvent {
    pub skill: EntityId,
    pub channel: Channel,
    pub target: EntityId,
    pub caster: EntityId,
}

/// Marks a player that took lethal damage: it stays up at negative health and
/// dies when attacked again; it leaves this state at positive health.
#[derive(Debug, Clone, Copy, PartialEq, Eq, Structural)]
pub struct WhiteOut;

/// A player enters white out.
#[derive(Debug, Clone, Copy, PartialEq, Eq, Structural)]
pub struct EnterWhiteOutEvent(pub EntityId);

/// The state that follows the end of a turn in `control`, if any: a unit's
/// turn is handed to the system, the system's turn back to a unit (the next
/// one), startup to a unit; the reward state is left as it is.
pub open spec fn after_turn_end(control: ControlMutex) -> Option<ControlMutex> {
    match control {
        ControlMutex::Unit => Some(ControlMutex::SystemTurn),
        ControlMutex::Startup => Some(ControlMutex::Unit),
        ControlMutex::SystemTurn => Some(ControlMutex::Unit),
        ControlMutex::SystemReward => None,
    }
}

/// Control passes back and forth between the units and the system: a unit's
/// turn end hands control to the system, the system's turn end (and the end
/// of startup) hands it to a unit, and a turn end during rewards changes
/// nothing. So after a unit's turn and the system's turn, a unit has control
/// again.
pub proof fn lemma_turn_cycle(control: ControlMutex)
    ensures
        control == ControlMutex::Unit ==> after_turn_end(control) == Some(ControlMutex::SystemTurn),
        control == ControlMutex::SystemTurn ==> after_turn_end(control) == Some(ControlMutex::Unit),
        control == ControlMutex::Startup ==> after_turn_end(control) == Some(ControlMutex::Unit),
        control == ControlMutex::SystemReward ==> after_turn_end(control) is None,
        after_turn_end(control) matches Some(next) ==> next != control && next != ControlMutex::Startup
            && next != ControlMutex::SystemReward,
        after_turn_end(ControlMutex::Unit) matches Some(next) && after_turn_end(next) == Some(
            ControlMutex::Unit,
        ),
{
}

/// Handles the end of a turn: says which state comes next, and at the end of
/// the system's turn gives the turn to the next unit.
pub fn evread_endturn<T>(control: ControlMutex, turn_order: &mut TurnOrderList<T>) -> (r: Option<ControlMutex>)
    requires
        control == ControlMutex::SystemTurn ==> old(turn_order)@.len() > 0,
    ensures
        r == after_turn_end(control),
        final(turn_order)@ == old(turn_order)@,
        final(turn_order).cursor() == if control == ControlMutex::SystemTurn {
            following(old(turn_order).cursor(), old(turn_order)@.len() as int)
        } else {
            old(turn_order).cursor()
        },
{
    match control {
        ControlMutex::Unit => Some(ControlMutex::SystemTurn),
        ControlMutex::Startup => Some(ControlMutex::Unit),
        ControlMutex::SystemTurn => {
            let _ = turn_order.next();
            Some(ControlMutex::Unit)
        },
        ControlMutex::SystemReward => None,
    }
}

/// What casting a skill sets off.
#[derive(Debug, Clone, Copy, PartialEq, Eq, Structural)]
pub enum CastEffect {
    /// The caster starts channeling: it gets the skill's channel and the
    /// casting it carries out later.
    Channeling { channel: Channel, casting: Casting, event: EvalChannelingSkillEvent },
    /// The skill takes effect at once.
    Instant(EvalSkillEvent),
}

/// The effect of casting `ev`'s skill, whose channel is `skill_channel`.
pub open spec fn cast_effect(ev: CastSkillEvent, skill_channel: Option<Channel>) -> CastEffect {
    match skill_channel {
        Some(c) => CastEffect::Channeling {
            channel: c,
            casting: Casting { skill_ent: ev.skill_ent.0, target_ent: ev.target },
            event: EvalChannelingSkillEvent {
                skill: ev.skill_ent.0,
                channel: c,
                target: ev.target,
                caster: ev.caster,
            },
        },
        None => CastEffect::Instant(
            EvalSkillEvent { skill: ev.skill_ent.0, target: ev.target, caster: ev.caster },
        ),
    }
}

/// A skill with a channel starts channeling for exactly that channel, and a
/// skill without one is evaluated at once; either way what is set off names
/// the cast's skill, target and caster.
pub proof fn lemma_cast_effect(ev: CastSkillEvent, skill_channel: Option<Channel>)
    ensures
        cast_effect(ev, skill_channel) is Channeling <==> skill_channel is Some,
        cast_effect(ev, skill_channel) matches CastEffect::Channeling { channel, casting, event } ==> {
            &&& skill_channel == Some(channel)
            &&& casting.skill_ent == ev.skill_ent.0 && casting.target_ent == ev.target
            &&& event.skill == ev.skill_ent.0 && event.target == ev.target && event.caster == ev.caster
            &&& event.channel == channel
        },
        cast_effect(ev, skill_channel) matches CastEffect::Instant(e) ==> e.skill == ev.skill_ent.0
            && e.target == ev.target && e.caster == ev.caster,
{
}

/// The effect of casting `ev`'s skill, whose channel is `skill_channel`: a
/// channeled skill starts channeling, any other skill is evaluated at once.
pub fn cast_skill(ev: &CastSkillEvent, skill_channel: Option<Channel>) -> (r: CastEffect)
    ensures
        r == cast_effect(*ev, skill_channel),
{
    match skill_channel {
        Some(c) => CastEffect::Channeling {
            channel: c,
            casting: Casting { skill_ent: ev.skill_ent.0, target_ent: ev.target },
            event: EvalChannelingSkillEvent {
                skill: ev.skill_ent.0,
                channel: c,
                target: ev.target,
                caster: ev.caster,
            },
        },
        None => CastEffect::Instant(
            EvalSkillEvent { skill: ev.skill_ent.0, target: ev.target, caster: ev.caster },
        ),
    }
}

/// What handling one cast sets off: an effect for each skill that the cast
/// names (none when it names no skill), then the end of the turn.
#[derive(Debug, Clone, PartialEq, Eq)]
pub struct CastResponse {
    pub effects: Vec<CastEffect>,
    pub turn_end: TurnEndEvent,
}

/// The effects of `ev`: one for each skill of `skills` (a skill and its
/// channel) that `ev` names, in order.
pub open spec fn effects_of(ev: CastSkillEvent, skills: Seq<(EntityId, Option<Channel>)>) -> Seq<CastEffect> {
    skills.filter(|s: (EntityId, Option<Channel>)| s.0 == ev.skill_ent.0).map_values(
        |s: (EntityId, Option<Channel>)| cast_effect(ev, s.1),
    )
}

/// A cast sets off one effect for each skill it names, and only those: each
/// skill with the cast's identifier gives the effect of casting it with its
/// own channel, every effect comes from such a skill, and a cast that names
/// none of the skills sets off nothing.
pub proof fn lemma_effects_of(ev: CastSkillEvent, skills: Seq<(EntityId, Option<Channel>)>, e: CastEffect)
    ensures
        effects_of(ev, skills).contains(e) <==> exists|i: int|
            0 <= i < skills.len() && #[trigger] skills[i].0 == ev.skill_ent.0 && e == cast_effect(
                ev,
                skills[i].1,
            ),
        (forall|i: int| 0 <= i < skills.len() ==> #[trigger] skills[i].0 != ev.skill_ent.0)
            ==> effects_of(ev, skills).len() == 0,
{
    let named = |s: (EntityId, Option<Channel>)| s.0 == ev.skill_ent.0;
    let effect = |s: (EntityId, Option<Channel>)| cast_effect(ev, s.1);
    let f = skills.filter(named);
    assert(effects_of(ev, skills) == f.map_values(effect));
    if effects_of(ev, skills).contains(e) {
        let j = choose|j: int| 0 <= j < f.len() && f.map_values(effect)[j] == e;
        skills.lemma_filter_pred(named, j);
        assert(f.contains(f[j]));
        skills.lemma_filter_contains_rev(named, f[j]);
        let i = choose|i: int| 0 <= i < skills.len() && skills[i] == f[j];
        assert(skills[i].0 == ev.skill_ent.0 && e == cast_effect(ev, skills[i].1));
    }
    if exists|i: int|
        0 <= i < skills.len() && #[trigger] skills[i].0 == ev.skill_ent.0 && e == cast_effect(
            ev,
            skills[i].1,
        ) {
        let i = choose|i: int|
            0 <= i < skills.len() && #[trigger] skills[i].0 == ev.skill_ent.0 && e == cast_effect(
                ev,
                skills[i].1,
            );
        skills.lemma_filter_contains(named, i);
        let j = choose|j: int| 0 <= j < f.len() && f[j] == skills[i];
        assert(f.map_values(effect)[j] == e);
    }
    if forall|i: int| 0 <= i < skills.len() ==> #[trigger] skills[i].0 != ev.skill_ent.0 {
        if f.len() > 0 {
            skills.lemma_filter_pred(named, 0);
            assert(f.contains(f[0]));
            skills.lemma_filter_contains_rev(named, f[0]);
        }
    }
}

fn cast_response(ev: &CastSkillEvent, skills: &Vec<(EntityId, Option<Channel>)>) -> (r: CastResponse)
    ensures
        r.effects@ == effects_of(*ev, skills@),
{
    let ghost named = |s: (EntityId, Option<Channel>)| s.0 == ev.skill_ent.0;
    let ghost effect = |s: (EntityId, Option<Channel>)| cast_effect(*ev, s.1);
    let mut effects: Vec<CastEffect> = Vec::new();
    let mut i: usize = 0;
    while i < skills.len()
        invariant
            i <= skills@.len(),
            named == (|s: (EntityId, Option<Channel>)| s.0 == ev.skill_ent.0),
            effect == (|s: (EntityId, Option<Channel>)| cast_effect(*ev, s.1)),
            effects@ == skills@.take(i as int).filter(named).map_values(effect),
        decreases skills@.len() - i,
    {
        let s = skills[i];
        proof {
            assert(s == skills@[i as int]);
            assert(skills@.take(i + 1) =~= skills@.take(i as int).push(s));
            Seq::lemma_filter_push(skills@.take(i as int), s, named);
        }
        if s.0 == ev.skill_ent.0 {
            effects.push(cast_skill(ev, s.1));
        }
        assert(effects@ =~= skills@.take(i + 1).filter(named).map_values(effect));
        i = i + 1;
    }
    assert(skills@.take(i as int) =~= skills@);
    CastResponse { effects, turn_end: TurnEndEvent }
}

/// Handles casts: for each cast, every skill of `skills` that it names takes
/// effect (channeled skills start channeling, others are evaluated), and the
/// turn ends, once per cast.
pub fn evread_castskill(events: &Vec<CastSkillEvent>, skills: &Vec<(EntityId, Option<Channel>)>) -> (r: Vec<CastResponse>)
    ensures
        r@.len() == events@.len(),
        forall|i: int| 0 <= i < events@.len() ==> #[trigger] r@[i].effects@ == effects_of(events@[i], skills@),
{
    let mut r: Vec<CastResponse> = Vec::new();
    let mut i: usize = 0;
    while i < events.len()
        invariant
            i <= events@.len(),
            r@.len() == i,
            forall|j: int| 0 <= j < i ==> #[trigger] r@[j].effects@ == effects_of(events@[j], skills@),
        decreases events@.len() - i,
    {
        r.push(cast_response(&events[i], skills));
        i = i + 1;
    }
    r
}

/// How a turn starts.
#[derive(Debug, Clone, Copy, PartialEq, Eq, Structural)]
pub enum TurnStart {
    /// An enemy acts: the computer chooses its skill.
    ChooseAiSkill,
    /// The player's side acts: the skill wheel opens.
    OpenSkillWheel,
}

/// What a channeling unit does at the start of its turn.
#[derive(Debug, Clone, Copy, PartialEq, Eq, Structural)]
pub enum ChannelStep {
    /// The last turn of channeling: the skill takes effect, the unit stops
    /// channeling and may choose a skill.
    Resolve,
    /// The unit keeps channeling and its turn is skipped.
    Wait,
}

/// Advances a unit's channel at the start of its turn: at 1 the channeled
/// skill resolves, above 1 the channel counts down by one and the turn ends.
pub fn tick_channel(channel: &mut Channel) -> (r: ChannelStep)
    requires
        old(channel).0 >= 1,
    ensures
        old(channel).0 == 1 ==> r == ChannelStep::Resolve && *final(channel) == *old(channel),
        old(channel).0 > 1 ==> r == ChannelStep::Wait && final(channel).0 == old(channel).0 - 1,
{
    if channel.0 == 1 {
        ChannelStep::Resolve
    } else {
        channel.0 = channel.0 - 1;
        ChannelStep::Wait
    }
}

/// A player that channels a skill: its channel, what it casts, and the
/// block, damage and heal of that skill.
#[derive(Debug, Clone, Copy, PartialEq, Eq, Structural)]
pub struct Channeler {
    pub unit: EntityId,
    pub channel: Channel,
    pub casting: Casting,
    pub skill: SkillStats,
}

/// Health and block of a unit.
#[derive(Debug, Clone, Copy, PartialEq, Eq, Structural)]
pub struct UnitStats {
    pub ent: EntityId,
    pub health: Health,
    pub block: Block,
}

/// Some unit of `units` is `e`.
pub open spec fn has_unit(units: Seq<UnitStats>, e: EntityId) -> bool {
    exists|i: int| 0 <= i < units.len() && units[i].ent == e
}

/// `i` is the first position of `e` in `units`.
pub open spec fn first_of(units: Seq<UnitStats>, e: EntityId, i: int) -> bool {
    &&& 0 <= i < units.len()
    &&& units[i].ent == e
    &&& forall|j: int| 0 <= j < i ==> units[j].ent != e
}

/// The position of unit `e` in `units`.
pub open spec fn unit_index(units: Seq<UnitStats>, e: EntityId) -> int {
    choose|i: int| first_of(units, e, i)
}

/// The units after channeler `c`'s turn starts: on its last turn of channeling
/// its skill's block, heal and damage are applied to its target.
pub open spec fn resolve_one(c: Channeler, units: Seq<UnitStats>) -> Seq<UnitStats> {
    if c.channel.0 == 1 {
        let j = unit_index(units, c.casting.target_ent);
        let r = skill_result(c.skill, units[j].health.0 as int, units[j].block.0 as int);
        units.update(j, UnitStats { ent: units[j].ent, health: Health(r.0 as i32), block: Block(r.1 as i32) })
    } else {
        units
    }
}

/// Channeler `c`'s turn can start on `units`: it channels, and on its last
/// turn its target exists and the skill keeps the target's stats in range.
pub open spec fn resolve_ok(c: Channeler, units: Seq<UnitStats>) -> bool {
    &&& c.channel.0 >= 1
    &&& c.channel.0 == 1 ==> {
        let j = unit_index(units, c.casting.target_ent);
        &&& has_unit(units, c.casting.target_ent)
        &&& skill_fits(c.skill, units[j].health.0 as int, units[j].block.0 as int)
    }
}

/// The units after the turns of all channelers start, one after another.
pub open spec fn resolved(chs: Seq<Channeler>, units: Seq<UnitStats>) -> Seq<UnitStats>
    decreases chs.len(),
{
    if chs.len() == 0 {
        units
    } else {
        resolve_one(chs.last(), resolved(chs.drop_last(), units))
    }
}

/// The turns of all channelers can start, one after another.
pub open spec fn turn_start_ok(chs: Seq<Channeler>, units: Seq<UnitStats>) -> bool
    decreases chs.len(),
{
    if chs.len() == 0 {
        true
    } else {
        turn_start_ok(chs.drop_last(), units) && resolve_ok(chs.last(), resolved(chs.drop_last(), units))
    }
}

/// A channeler after its turn starts: on its last turn it keeps its channel
/// (its channel and casting are removed), otherwise the channel counts down.
pub open spec fn ticked(c: Channeler) -> Channeler {
    if c.channel.0 == 1 {
        c
    } else {
        Channeler { unit: c.unit, channel: Channel((c.channel.0 - 1) as u32), casting: c.casting, skill: c.skill }
    }
}

/// At the start of its turn a channeler keeps its unit, casting and skill;
/// its channel counts down by one, except on its last turn (channel 1), when
/// it is left as it was.
pub proof fn lemma_ticked(c: Channeler)
    ensures
        ticked(c).unit == c.unit && ticked(c).casting == c.casting && ticked(c).skill == c.skill,
        c.channel.0 == 1 ==> ticked(c) == c,
        c.channel.0 > 1 ==> ticked(c).channel.0 == c.channel.0 - 1,
{
}

/// A unit has one first position: the position of `e` is the one where it
/// first occurs.
proof fn lemma_unit_index_first(units: Seq<UnitStats>, e: EntityId, j: int)
    requires
        first_of(units, e, j),
    ensures
        unit_index(units, e) == j,
{
    let k = unit_index(units, e);
    assert(first_of(units, e, k));
    if k < j {
        assert(units[k].ent != e);
    }
    if k > j {
        assert(units[j].ent != e);
    }
}

/// A channeled skill touches only its target: on the channeler's last turn
/// the first unit with the target's identifier gets the health and block
/// that the skill leaves, and every other unit, and the number of units,
/// stay as they were; on any other turn nothing changes.
pub proof fn lemma_resolve_one_target(c: Channeler, units: Seq<UnitStats>, j: int)
    requires
        resolve_ok(c, units),
        first_of(units, c.casting.target_ent, j),
    ensures
        resolve_one(c, units).len() == units.len(),
        c.channel.0 != 1 ==> resolve_one(c, units) == units,
        c.channel.0 == 1 ==> {
            let r = skill_result(c.skill, units[j].health.0 as int, units[j].block.0 as int);
            &&& resolve_one(c, units)[j].ent == units[j].ent
            &&& resolve_one(c, units)[j].health.0 == r.0
            &&& resolve_one(c, units)[j].block.0 == r.1
            &&& forall|k: int| 0 <= k < units.len() && k != j ==> #[trigger] resolve_one(c, units)[k]
                == units[k]
        },
{
    lemma_unit_index_first(units, c.casting.target_ent, j);
    if c.channel.0 == 1 {
        crate::eval::lemma_skill_result_fits(c.skill, units[j].health.0 as int, units[j].block.0 as int);
    }
}

/// Every channeler either resolves (on its last turn) or waits: the
/// channelers that resolve and those that wait make up all of them.
pub proof fn lemma_channelers_split(chs: Seq<Channeler>)
    ensures
        chs.filter(|c: Channeler| c.channel.0 == 1).len() + chs.filter(|c: Channeler| c.channel.0 != 1).len()
            == chs.len(),
    decreases chs.len(),
{
    let last = |c: Channeler| c.channel.0 == 1;
    let waits = |c: Channeler| c.channel.0 != 1;
    if chs.len() > 0 {
        let d = chs.drop_last();
        lemma_channelers_split(d);
        assert(chs =~= d.push(chs.last()));
        Seq::lemma_filter_push(d, chs.last(), last);
        Seq::lemma_filter_push(d, chs.last(), waits);
    } else {
        assert(chs.filter(last) =~= Seq::<Channeler>::empty()) by {
            reveal(Seq::filter);
        }
        assert(chs.filter(waits) =~= Seq::<Channeler>::empty()) by {
            reveal(Seq::filter);
        }
    }
}

proof fn lemma_turn_start_ok_prefix(chs: Seq<Channeler>, units: Seq<UnitStats>, i: int)
    requires
        turn_start_ok(chs, units),
        0 <= i <= chs.len(),
    ensures
        turn_start_ok(chs.take(i), units),
    decreases chs.len(),
{
    if i < chs.len() {
        assert(chs.drop_last().take(i) =~= chs.take(i));
        lemma_turn_start_ok_prefix(chs.drop_last(), units, i);
    } else {
        assert(chs.take(i) =~= chs);
    }
}

fn find_unit(units: &Vec<UnitStats>, e: EntityId) -> (r: Option<usize>)
    ensures
        r is None <==> !has_unit(units@, e),
        r matches Some(i) ==> first_of(units@, e, i as int) && i as int == unit_index(units@, e),
{
    let mut i: usize = 0;
    while i < units.len()
        invariant
            i <= units@.len(),
            forall|j: int| 0 <= j < i ==> units@[j].ent != e,
        decreases units@.len() - i,
    {
        if units[i].ent == e {
            proof {
                assert(first_of(units@, e, i as int));
                let k = unit_index(units@, e);
                assert(first_of(units@, e, k));
                assert(k == i);
            }
            return Some(i);
        }
        i = i + 1;
    }
    None
}

fn resolve_step(c: &Channeler, units: &mut Vec<UnitStats>)
    requires
        resolve_ok(*c, old(units)@),
    ensures
        final(units)@ == resolve_one(*c, old(units)@),
{
    if c.channel.0 == 1 {
        let j = find_unit(units, c.casting.target_ent).unwrap();
        let u = units[j];
        let mut health = u.health;
        let mut block = u.block;
        apply_skill(&c.skill, &mut health, &mut block);
        units.set(j, UnitStats { ent: u.ent, health, block });
    }
}

fn step_in_range(c: &Channeler, units: &Vec<UnitStats>) -> (r: bool)
    ensures
        r == resolve_ok(*c, units@),
{
    if c.channel.0 < 1 {
        return false;
    }
    if c.channel.0 == 1 {
        match find_unit(units, c.casting.target_ent) {
            Some(j) => skill_in_range(&c.skill, &units[j].health, &units[j].block),
            None => false,
        }
    } else {
        true
    }
}

/// Whether the turns of `channelers` can start on `units`: every channel is
/// at least 1, and each channeled skill that resolves finds its target and
/// keeps its stats in range.
pub fn turn_start_in_range(channelers: &Vec<Channeler>, units: &Vec<UnitStats>) -> (r: bool)
    ensures
        r == turn_start_ok(channelers@, units@),
{
    let mut work = units.clone();
    assert(work@ =~= units@);
    let mut i: usize = 0;
    assert(channelers@.take(0) =~= Seq::<Channeler>::empty());
    while i < channelers.len()
        invariant
            i <= channelers@.len(),
            work@ == resolved(channelers@.take(i as int), units@),
            turn_start_ok(channelers@.take(i as int), units@),
        decreases channelers@.len() - i,
    {
        let c = channelers[i];
        assert(channelers@.take(i + 1).drop_last() =~= channelers@.take(i as int));
        if !step_in_range(&c, &work) {
            proof {
                if turn_start_ok(channelers@, units@) {
                    lemma_turn_start_ok_prefix(channelers@, units@, i + 1);
                }
            }
            return false;
        }
        resolve_step(&c, &mut work);
        i = i + 1;
    }
    assert(channelers@.take(i as int) =~= channelers@);
    true
}

/// What happened at the start of a turn.
#[derive(Debug, Clone, PartialEq, Eq)]
pub struct TurnStartReport {
    /// Who acts: the computer for an enemy, otherwise the player through the
    /// skill wheel.
    pub start: TurnStart,
    /// The channelers whose skill resolved: their channel and casting go.
    pub resolved: Vec<EntityId>,
    /// How many turn ends the waiting channelers send.
    pub turn_ends: usize,
}

/// Starts the current unit's turn. An enemy lets the computer choose its
/// skill and changes nothing. Otherwise the skill wheel opens and every
/// channeling player advances, in order: on the last turn of channeling its
/// skill's block, heal and damage are applied to its target and it stops
/// channeling; before that its channel counts down by one and the turn ends.
pub fn eval_turn_start(
    current_is_enemy: bool,
    channelers: &mut Vec<Channeler>,
    units: &mut Vec<UnitStats>,
) -> (r: TurnStartReport)
    requires
        !current_is_enemy ==> turn_start_ok(old(channelers)@, old(units)@),
    ensures
        current_is_enemy ==> {
            &&& r.start == TurnStart::ChooseAiSkill
            &&& final(channelers)@ == old(channelers)@
            &&& final(units)@ == old(units)@
            &&& r.resolved@ == Seq::<EntityId>::empty()
            &&& r.turn_ends == 0
        },
        !current_is_enemy ==> {
            &&& r.start == TurnStart::OpenSkillWheel
            &&& final(units)@ == resolved(old(channelers)@, old(units)@)
            &&& final(channelers)@ == old(channelers)@.map_values(|c: Channeler| ticked(c))
            &&& r.resolved@ == old(channelers)@.filter(|c: Channeler| c.channel.0 == 1).map_values(
                |c: Channeler| c.unit,
            )
            &&& r.turn_ends == old(channelers)@.filter(|c: Channeler| c.channel.0 != 1).len()
            &&& r.resolved@.len() + r.turn_ends == old(channelers)@.len()
        },
{
    if current_is_enemy {
        return TurnStartReport { start: TurnStart::ChooseAiSkill, resolved: Vec::new(), turn_ends: 0 };
    }
    let ghost chs0 = channelers@;
    let ghost units0 = units@;
    let ghost last = |c: Channeler| c.channel.0 == 1;
    let ghost waits = |c: Channeler| c.channel.0 != 1;
    let ghost unit_of = |c: Channeler| c.unit;
    let mut resolved_units: Vec<EntityId> = Vec::new();
    let mut turn_ends: usize = 0;
    let mut i: usize = 0;
    assert(chs0.take(0) =~= Seq::<Channeler>::empty());
    while i < channelers.len()
        invariant
            i <= channelers@.len(),
            channelers@.len() == chs0.len(),
            turn_start_ok(chs0, units0),
            last == (|c: Channeler| c.channel.0 == 1),
            waits == (|c: Channeler| c.channel.0 != 1),
            unit_of == (|c: Channeler| c.unit),
            forall|j: int| 0 <= j < i ==> #[trigger] channelers@[j] == ticked(chs0[j]),
            forall|j: int| i <= j < chs0.len() ==> #[trigger] channelers@[j] == chs0[j],
            units@ == resolved(chs0.take(i as int), units0),
            resolved_units@ == chs0.take(i as int).filter(last).map_values(unit_of),
            turn_ends as int == chs0.take(i as int).filter(waits).len(),
        decreases channelers@.len() - i,
    {
        let c = channelers[i];
        proof {
            assert(c == chs0[i as int]);
            assert(chs0.take(i + 1).drop_last() =~= chs0.take(i as int));
            assert(chs0.take(i + 1) =~= chs0.take(i as int).push(c));
            lemma_turn_start_ok_prefix(chs0, units0, i + 1);
            Seq::lemma_filter_push(chs0.take(i as int), c, last);
            Seq::lemma_filter_push(chs0.take(i as int), c, waits);
            chs0.take(i as int).lemma_filter_len(waits);
        }
        resolve_step(&c, units);
        if c.channel.0 == 1 {
            resolved_units.push(c.unit);
        } else {
            let mut next = c;
            next.channel = Channel(c.channel.0 - 1);
            channelers.set(i, next);
            turn_ends = turn_ends + 1;
        }
        assert(resolved_units@ =~= chs0.take(i + 1).filter(last).map_values(unit_of));
        i = i + 1;
    }
    assert(chs0.take(i as int) =~= chs0);
    assert(channelers@ =~= chs0.map_values(|c: Channeler| ticked(c)));
    proof {
        lemma_channelers_split(chs0);
    }
    TurnStartReport { start: TurnStart::OpenSkillWheel, resolved: resolved_units, turn_ends }
}

/// The caster, target and skill of a cast that the prompt completes: the
/// current unit of the turn order casts the selected skill on the chosen
/// target.
pub fn evread_targetselect(
    selecting_skill: EntityId,
    turn_order: &TurnOrderList<EntityId>,
    target: EntityId,
) -> (r: Result<CastSkillEvent, DataError>)
    ensures
        turn_order@.len() == 0 ==> r == Err::<CastSkillEvent, DataError>(DataError::EmptyList),
        turn_order@.len() > 0 ==> r == Ok::<CastSkillEvent, DataError>(
            CastSkillEvent {
                skill_ent: SkillEnt(selecting_skill),
                target,
                caster: turn_order@[turn_order.cursor()].0,
            },
        ),
{
    let caster = *turn_order.get_current()?;
    Ok(CastSkillEvent { skill_ent: SkillEnt(selecting_skill), target, caster })
}

/// The sprite frame after an animation tick, and whether the turn ends: while
/// the animation runs, a finished frame timer moves to the next frame of the
/// sheet (wrapping around); once the animation is over the first frame is
/// shown again and the turn ends.
pub fn animate_skill_step(animation_over: bool, frame_due: bool, index: usize, frames: usize) -> (r: (usize, bool))
    requires
        !animation_over && frame_due ==> frames > 0 && index < usize::MAX,
    ensures
        animation_over ==> r == (0usize, true),
        !animation_over && frame_due ==> r.0 == (index + 1) % (frames as int) && !r.1,
        !animation_over && !frame_due ==> r == (index, false),
{
    if !animation_over {
        if frame_due {
            ((index + 1) % frames, false)
        } else {
            (index, false)
        }
    } else {
        (0, true)
    }
}

} // verus!
