use bevy_rpg::component::{Block, Damage, Heal, Health};
use bevy_rpg::eval::{
    apply_skill, eval_block, eval_damage, eval_heal, eval_instant_skill, EvalOutcome, SkillStats,
};

#[test]
fn damage_calculation() {
    let skill = SkillStats { block: None, damage: Some(Damage(10)), heal: None };

    let (mut h1, mut b1) = (Health(1), Block(3));
    let (mut h2, mut b2) = (Health(1), Block(12));
    let (mut h3, mut b3) = (Health(8), Block(4));
    let o1 = eval_instant_skill(&skill, &mut h1, &mut b1, false);
    let o2 = eval_instant_skill(&skill, &mut h2, &mut b2, false);
    let o3 = eval_instant_skill(&skill, &mut h3, &mut b3, false);

    assert_eq!(h1.0, -6);
    assert_eq!(b1.0, 0);
    assert_eq!(h2.0, 1);
    assert_eq!(b2.0, 2);
    assert_eq!(h3.0, 2);
    assert_eq!(b3.0, 0);

    // the first enemy is killed, the others stand
    assert_eq!(o1, EvalOutcome::Killed);
    assert_eq!(o2, EvalOutcome::Standing);
    assert_eq!(o3, EvalOutcome::Standing);
}

#[test]
fn lethal_damage_whites_out_player() {
    let skill = SkillStats { block: None, damage: Some(Damage(5)), heal: None };
    let (mut h, mut b) = (Health(5), Block(0));
    assert_eq!(eval_instant_skill(&skill, &mut h, &mut b, true), EvalOutcome::WhiteOut);
    assert_eq!(h.0, 0);
}

#[test]
fn block_heal_then_damage() {
    let skill = SkillStats { block: Some(Block(4)), damage: Some(Damage(7)), heal: Some(Heal(2)) };
    let (mut h, mut b) = (Health(10), Block(1));
    apply_skill(&skill, &mut h, &mut b);
    // block 1 + 4 = 5, health 10 + 2 = 12, damage 7 breaks the block and costs 2 health
    assert_eq!((h.0, b.0), (10, 0));
}

#[test]
fn single_stat_updates() {
    let mut b = Block(2);
    eval_block(Some(&Block(3)), &mut b);
    assert_eq!(b.0, 5);
    eval_block(None, &mut b);
    assert_eq!(b.0, 5);
    let mut h = Health(3);
    eval_heal(Some(&Heal(4)), &mut h);
    assert_eq!(h.0, 7);
    eval_damage(Some(&Damage(2)), &mut h, &mut b);
    assert_eq!((h.0, b.0), (7, 3));
    eval_damage(None, &mut h, &mut b);
    assert_eq!((h.0, b.0), (7, 3));
    eval_damage(Some(&Damage(3)), &mut h, &mut b);
    assert_eq!((h.0, b.0), (7, 0));
}

#[test]
fn damage_and_block_sum_drops_by_damage() {
    for (health, block, damage) in [(10, 3, 8), (10, 8, 3), (4, 0, 9), (-2, 5, 5)] {
        let (mut h, mut b) = (Health(health), Block(block));
        eval_damage(Some(&Damage(damage)), &mut h, &mut b);
        assert_eq!(h.0 + b.0, health + block - damage);
        assert!(b.0 >= 0);
        assert!(h.0 <= health);
    }
}
