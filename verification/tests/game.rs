use bevy_rpg::bundle::{skill_components, SkillBundle, SkillDataTable, UnitBundle};
use bevy_rpg::component::{
    Block, Damage, Heal, Health, LabelName, Learned, Mana, MaxHealth, MaxMana, SkillGroup, Speed,
    Target, UnitArchetype,
};
use bevy_rpg::math::{calc_block, calc_damage, calc_heal};
use bevy_rpg::movement::{logic_input_movement, Direction, MoveKey, Step};

#[test]
fn unit_bundles() {
    let b = UnitBundle::new(LabelName("Othi".to_string()), Health(100), Mana(30), Block::default(), Speed(0));
    assert_eq!(b.name.0, "Othi");
    assert_eq!((b.current_health, b.max_health), (Health(100), MaxHealth(100)));
    assert_eq!((b.current_mana, b.max_mana), (Mana(30), MaxMana(30)));
    assert_eq!((b.default_block, b.speed), (Block(0), Speed(0)));
    let i = UnitBundle::new_injured(
        LabelName("dummy".to_string()),
        Health(5),
        MaxHealth(20),
        Mana(1),
        MaxMana(9),
        Block(2),
        Speed(-1),
    );
    assert_eq!((i.current_health.0, i.max_health.0, i.current_mana.0, i.max_mana.0), (5, 20, 1, 9));
    assert_eq!((i.default_block.0, i.speed.0), (2, -1));
}

#[test]
fn skill_bundles() {
    let d = SkillBundle::default();
    assert_eq!(d.name.0, "Unnamed skill");
    assert_eq!(d.skill_group, SkillGroup::Universal);
    assert_eq!(d.target, Target::Any);
    let entry = SkillDataTable {
        label_name: "Fireball".to_string(),
        skill_group: SkillGroup::Enemy,
        target: Target::Enemy,
        mana: Some(3),
        damage: Some(12),
        block: None,
        heal: None,
        channel: Some(2),
        learned: Learned::Basic,
        learnable_archetypes: vec![UnitArchetype::EnemyZone1, UnitArchetype::AllyRoot],
    };
    let c = skill_components(&entry);
    assert_eq!(c.bundle.name.0, "Fireball");
    assert_eq!(c.bundle.skill_group, SkillGroup::Enemy);
    assert_eq!(c.bundle.target, Target::Enemy);
    assert_eq!(c.damage, Some(Damage(12)));
    assert_eq!(c.block, None);
    assert_eq!(c.heal, None);
    assert_eq!(c.channel.map(|ch| ch.0), Some(2));
    assert_eq!(c.learned, Learned::Basic);
    assert_eq!(c.learnable.0, vec![UnitArchetype::EnemyZone1, UnitArchetype::AllyRoot]);
}

#[test]
fn player_calculations() {
    let mut block = Block(1);
    calc_block(&mut block, &vec![Block(2), Block(3)]);
    assert_eq!(block.0, 6);

    let (mut block, mut health) = (Block(4), Health(20));
    calc_damage(&mut block, &mut health, &vec![Damage(6), Damage(1)]);
    // 20 - (6 - 4) = 18, block 0; then 18 - 1 = 17
    assert_eq!((health.0, block.0), (17, 0));
    let (mut block, mut health) = (Block(9), Health(20));
    calc_damage(&mut block, &mut health, &vec![Damage(3)]);
    assert_eq!((health.0, block.0), (26, 6));

    let mut health = Health(15);
    calc_heal(&mut health, &MaxHealth(20), &vec![Heal(3), Heal(5)]);
    assert_eq!(health.0, 20);
    // a unit at 1 health is alive and can be healed
    let mut health = Health(1);
    calc_heal(&mut health, &MaxHealth(10), &vec![Heal(5)]);
    assert_eq!(health.0, 6);
    let mut health = Health(0);
    calc_heal(&mut health, &MaxHealth(20), &vec![Heal(3)]);
    assert_eq!(health.0, 0);
}

#[test]
fn movement_keys() {
    assert_eq!(
        logic_input_movement(Some(MoveKey::W)),
        Step { moving: true, direction: Direction::Up, dx: 0, dy: 1 }
    );
    assert_eq!(logic_input_movement(Some(MoveKey::R)).dy, -1);
    assert_eq!(logic_input_movement(Some(MoveKey::A)).dx, -1);
    assert_eq!(logic_input_movement(Some(MoveKey::S)).direction, Direction::Right);
    assert_eq!(
        logic_input_movement(None),
        Step { moving: false, direction: Direction::Down, dx: 0, dy: 0 }
    );
}
