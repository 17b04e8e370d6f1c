use bevy_rpg::component::{SkillGroup, Target};
use bevy_rpg::targeting::{
    ai_skill_group, choose_skill, choose_skill_with, draw_skill, gen_target_bucket, select_units,
    setup_target_bucket, skill_pool, SetupTarget, SkillOption, TargetRule, UnitTags,
};

fn units() -> Vec<UnitTags> {
    vec![
        UnitTags { ent: 1, is_player: true, is_ally: false, is_enemy: false },
        UnitTags { ent: 2, is_player: false, is_ally: true, is_enemy: false },
        UnitTags { ent: 3, is_player: false, is_ally: false, is_enemy: true },
        UnitTags { ent: 4, is_player: false, is_ally: false, is_enemy: true },
    ]
}

#[test]
fn bucket_for_each_target() {
    let u = units();
    let caster = Some(1);
    assert_eq!(gen_target_bucket(&u, Target::Player, caster), vec![1]);
    assert_eq!(gen_target_bucket(&u, Target::Any, caster), vec![1, 2, 3, 4]);
    assert_eq!(gen_target_bucket(&u, Target::Ally, caster), vec![1, 2]);
    assert_eq!(gen_target_bucket(&u, Target::AllyAOE, caster), vec![1, 2]);
    assert_eq!(gen_target_bucket(&u, Target::AllyButSelf, Some(2)), Vec::<u64>::new());
    assert_eq!(gen_target_bucket(&u, Target::AllyButSelf, caster), vec![2]);
    assert_eq!(gen_target_bucket(&u, Target::Enemy, caster), vec![3, 4]);
    assert_eq!(gen_target_bucket(&u, Target::EnemyAOE, caster), vec![3, 4]);
    assert_eq!(gen_target_bucket(&u, Target::AnyButSelf, caster), vec![2, 3, 4]);
    assert_eq!(gen_target_bucket(&u, Target::NoneButSelf, caster), vec![1]);
}

#[test]
fn setup_bucket_from_both_sides() {
    let u = units();
    assert_eq!(setup_target_bucket(&u, SetupTarget::AllyAndSelf, 1, false), vec![1, 2]);
    assert_eq!(setup_target_bucket(&u, SetupTarget::AllyButSelf, 1, false), vec![2]);
    assert_eq!(setup_target_bucket(&u, SetupTarget::EnemyAndSelf, 1, false), vec![1, 3, 4]);
    assert_eq!(setup_target_bucket(&u, SetupTarget::EnemyButSelf, 1, false), vec![3, 4]);
    assert_eq!(setup_target_bucket(&u, SetupTarget::OnlySelf, 1, false), vec![1]);
    assert_eq!(setup_target_bucket(&u, SetupTarget::AnyButSelf, 1, false), vec![2, 3, 4]);
    assert_eq!(setup_target_bucket(&u, SetupTarget::All, 1, false), vec![1, 2, 3, 4]);
    assert_eq!(setup_target_bucket(&u, SetupTarget::AllyAndSelf, 3, true), vec![3, 4]);
    assert_eq!(setup_target_bucket(&u, SetupTarget::AllyButSelf, 3, true), vec![4]);
    assert_eq!(setup_target_bucket(&u, SetupTarget::AllyAOE, 3, true), vec![3, 4]);
    assert_eq!(setup_target_bucket(&u, SetupTarget::EnemyAndSelf, 3, true), vec![1, 2, 3]);
    assert_eq!(setup_target_bucket(&u, SetupTarget::EnemyButSelf, 3, true), vec![1, 2]);
    assert_eq!(setup_target_bucket(&u, SetupTarget::EnemyAOE, 3, true), vec![1, 2]);
    assert_eq!(setup_target_bucket(&u, SetupTarget::Any, 3, true), vec![1, 2, 3, 4]);
}

#[test]
fn ai_targets() {
    let u = units();
    let rule = |target| TargetRule::Ai { target, caster: Some(4) };
    assert_eq!(select_units(&u, rule(Target::Ally)), vec![1, 2]);
    assert_eq!(select_units(&u, rule(Target::AllyButSelf)), vec![2]);
    assert_eq!(select_units(&u, rule(Target::AnyButSelf)), vec![2, 3, 4]);
    assert_eq!(select_units(&u, rule(Target::NoneButSelf)), vec![4]);
    assert_eq!(select_units(&u, rule(Target::Enemy)), vec![3, 4]);
}

#[test]
fn ai_groups_and_pools() {
    assert_eq!(ai_skill_group(true, false), SkillGroup::Ally);
    assert_eq!(ai_skill_group(true, true), SkillGroup::Ally);
    assert_eq!(ai_skill_group(false, true), SkillGroup::Enemy);
    assert_eq!(ai_skill_group(false, false), SkillGroup::Universal);
    let skills = skills();
    let pool = skill_pool(&skills, SkillGroup::Enemy);
    assert_eq!(pool.iter().map(|s| s.ent).collect::<Vec<_>>(), vec![11, 13]);
}

fn skills() -> Vec<SkillOption> {
    vec![
        SkillOption { ent: 11, group: SkillGroup::Enemy, target: Target::Player },
        SkillOption { ent: 12, group: SkillGroup::Ally, target: Target::Enemy },
        SkillOption { ent: 13, group: SkillGroup::Enemy, target: Target::NoneButSelf },
    ]
}

#[test]
fn ai_cast_with_given_pick() {
    let u = units();
    let enemy = u[2];
    let first = choose_skill_with(&enemy, &skills(), &u, Some(3), 0);
    assert_eq!((first.skill_ent.0, first.target, first.caster), (11, 1, 3));
    let second = choose_skill_with(&enemy, &skills(), &u, Some(3), 1);
    assert_eq!((second.skill_ent.0, second.target, second.caster), (13, 3, 3));
}

#[test]
fn ai_cast_at_random_stays_in_pool() {
    let u = units();
    let enemy = u[2];
    for _ in 0..50 {
        let cast = choose_skill(&enemy, &skills(), &u, Some(3));
        assert!(cast == choose_skill_with(&enemy, &skills(), &u, Some(3), 0)
            || cast == choose_skill_with(&enemy, &skills(), &u, Some(3), 1));
    }
}

#[test]
fn prompt_targets_of_skill_targets() {
    assert_eq!(SetupTarget::from_target(Target::Player), SetupTarget::AllyAndSelf);
    assert_eq!(SetupTarget::from_target(Target::Ally), SetupTarget::AllyAndSelf);
    assert_eq!(SetupTarget::from_target(Target::Enemy), SetupTarget::EnemyButSelf);
    assert_eq!(SetupTarget::from_target(Target::NoneButSelf), SetupTarget::OnlySelf);
    assert_eq!(SetupTarget::from_target(Target::AnyButSelf), SetupTarget::AnyButSelf);
}

#[test]
fn drawn_skill_lies_in_pool() {
    let u = units();
    for _ in 0..50 {
        assert!(draw_skill(&u[2], &skills()) < 2);
        assert_eq!(draw_skill(&u[1], &skills()), 0);
    }
}
