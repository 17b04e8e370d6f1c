use bevy_rpg::combat::{
    animate_skill_step, cast_skill, eval_turn_start, evread_castskill, evread_endturn,
    evread_targetselect, tick_channel, turn_start_in_range, CastEffect, ChannelStep, Channeler,
    ControlMutex, EvalSkillEvent, TurnStart, UnitStats,
};
use bevy_rpg::component::{Block, CastSkillEvent, Casting, Channel, Damage, Heal, Health, SkillEnt};
use bevy_rpg::eval::SkillStats;
use bevy_rpg::error::DataError;
use bevy_rpg::turn_order::TurnOrderList;

#[test]
fn end_turn_passes_control() {
    let mut order = TurnOrderList::new_sorted(vec![(7u64, 2), (8, 1)]);
    assert_eq!(evread_endturn(ControlMutex::Unit, &mut order), Some(ControlMutex::SystemTurn));
    assert_eq!(order.index(), 0);
    assert_eq!(evread_endturn(ControlMutex::Startup, &mut order), Some(ControlMutex::Unit));
    assert_eq!(order.index(), 0);
    assert_eq!(evread_endturn(ControlMutex::SystemTurn, &mut order), Some(ControlMutex::Unit));
    assert_eq!(*order.get_current().unwrap(), 8);
    assert_eq!(evread_endturn(ControlMutex::SystemReward, &mut order), None);
    assert_eq!(*order.get_current().unwrap(), 8);
    assert_eq!(evread_endturn(ControlMutex::SystemTurn, &mut order), Some(ControlMutex::Unit));
    assert_eq!(*order.get_current().unwrap(), 7);
}

#[test]
fn cast_channeled_or_instant() {
    let ev = CastSkillEvent { skill_ent: SkillEnt(5), target: 6, caster: 7 };
    match cast_skill(&ev, Some(Channel(2))) {
        CastEffect::Channeling { channel, casting, event } => {
            assert_eq!(channel.0, 2);
            assert_eq!((casting.skill_ent, casting.target_ent), (5, 6));
            assert_eq!((event.skill, event.channel.0, event.target, event.caster), (5, 2, 6, 7));
        }
        CastEffect::Instant(_) => panic!("expected channeling"),
    }
    assert_eq!(
        cast_skill(&ev, None),
        CastEffect::Instant(EvalSkillEvent { skill: 5, target: 6, caster: 7 })
    );
}

#[test]
fn turn_start_and_channel_ticks() {
    let mut c = Channel(3);
    assert_eq!(tick_channel(&mut c), ChannelStep::Wait);
    assert_eq!(c.0, 2);
    assert_eq!(tick_channel(&mut c), ChannelStep::Wait);
    assert_eq!(c.0, 1);
    assert_eq!(tick_channel(&mut c), ChannelStep::Resolve);
    assert_eq!(c.0, 1);
}

#[test]
fn target_select_builds_cast() {
    let order = TurnOrderList::new_sorted(vec![(7u64, 2), (8, 1)]);
    let cast = evread_targetselect(42, &order, 8).unwrap();
    assert_eq!((cast.skill_ent.0, cast.target, cast.caster), (42, 8, 7));
    let empty: TurnOrderList<u64> = TurnOrderList::new();
    assert_eq!(evread_targetselect(42, &empty, 8), Err(DataError::EmptyList));
}

#[test]
fn animation_frames() {
    assert_eq!(animate_skill_step(false, true, 6, 7), (0, false));
    assert_eq!(animate_skill_step(false, true, 2, 7), (3, false));
    assert_eq!(animate_skill_step(false, false, 2, 7), (2, false));
    assert_eq!(animate_skill_step(true, true, 4, 7), (0, true));
}

#[test]
fn control_labels() {
    assert_eq!(ControlMutex::Unit.label(), "unit".to_string());
    assert_eq!(ControlMutex::SystemTurn.label(), "system".to_string());
    assert_eq!(ControlMutex::Startup.label(), "startup".to_string());
    assert_eq!(ControlMutex::SystemReward.label(), "reward".to_string());
}

#[test]
fn every_cast_ends_the_turn() {
    let skills = vec![(5u64, Some(Channel(2))), (6, None)];
    let events = vec![
        CastSkillEvent { skill_ent: SkillEnt(6), target: 1, caster: 2 },
        CastSkillEvent { skill_ent: SkillEnt(9), target: 1, caster: 2 },
        CastSkillEvent { skill_ent: SkillEnt(5), target: 3, caster: 2 },
    ];
    let responses = evread_castskill(&events, &skills);
    assert_eq!(responses.len(), 3);
    assert_eq!(
        responses[0].effects,
        vec![CastEffect::Instant(EvalSkillEvent { skill: 6, target: 1, caster: 2 })]
    );
    // a cast that names no skill sets off nothing, but still ends the turn
    assert!(responses[1].effects.is_empty());
    assert_eq!(responses[2].effects.len(), 1);
    assert!(matches!(responses[2].effects[0], CastEffect::Channeling { .. }));
}

fn channeler(unit: u64, channel: u32, target: u64, skill: SkillStats) -> Channeler {
    Channeler { unit, channel: Channel(channel), casting: Casting { skill_ent: 50, target_ent: target }, skill }
}

#[test]
fn turn_start_for_enemy_changes_nothing() {
    let mut chs = vec![channeler(1, 1, 3, SkillStats { block: None, damage: Some(Damage(4)), heal: None })];
    let mut units = vec![UnitStats { ent: 3, health: Health(10), block: Block(0) }];
    let report = eval_turn_start(true, &mut chs, &mut units);
    assert_eq!(report.start, TurnStart::ChooseAiSkill);
    assert!(report.resolved.is_empty());
    assert_eq!(report.turn_ends, 0);
    assert_eq!(units[0].health, Health(10));
    assert_eq!(chs[0].channel, Channel(1));
}

#[test]
fn turn_start_resolves_and_counts_down_channels() {
    let hit = SkillStats { block: None, damage: Some(Damage(4)), heal: None };
    let mend = SkillStats { block: Some(Block(2)), damage: None, heal: Some(Heal(3)) };
    let mut chs = vec![channeler(1, 1, 3, hit), channeler(2, 3, 3, hit), channeler(4, 1, 3, mend)];
    let mut units = vec![
        UnitStats { ent: 7, health: Health(5), block: Block(0) },
        UnitStats { ent: 3, health: Health(10), block: Block(1) },
    ];
    assert!(turn_start_in_range(&chs, &units));
    let report = eval_turn_start(false, &mut chs, &mut units);
    assert_eq!(report.start, TurnStart::OpenSkillWheel);
    assert_eq!(report.resolved, vec![1, 4]);
    assert_eq!(report.turn_ends, 1);
    assert_eq!(chs[0].channel, Channel(1));
    assert_eq!(chs[1].channel, Channel(2));
    assert_eq!(chs[2].channel, Channel(1));
    // unit 3: damage 4 through block 1 gives health 7, then block +2 and heal +3
    assert_eq!(units[1], UnitStats { ent: 3, health: Health(10), block: Block(2) });
    assert_eq!(units[0], UnitStats { ent: 7, health: Health(5), block: Block(0) });
}

#[test]
fn turn_start_range_check() {
    let hit = SkillStats { block: None, damage: Some(Damage(4)), heal: None };
    let units = vec![UnitStats { ent: 3, health: Health(10), block: Block(0) }];
    assert!(!turn_start_in_range(&vec![channeler(1, 1, 8, hit)], &units));
    assert!(!turn_start_in_range(&vec![channeler(1, 0, 3, hit)], &units));
    let huge = SkillStats { block: None, damage: None, heal: Some(Heal(i32::MAX)) };
    assert!(!turn_start_in_range(&vec![channeler(1, 1, 3, huge)], &units));
    assert!(turn_start_in_range(&vec![channeler(1, 2, 8, hit)], &units));
}
