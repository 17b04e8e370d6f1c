use bevy_rpg::combat::ControlMutex;
use bevy_rpg::component::{
    Block, Channel, Damage, Heal, Health, LearnableArchetypes, Learned, Mana, SkillEnt, Target,
    UnitArchetype,
};
use bevy_rpg::ui::{
    combat_button_text, draw_skill_icons, hp_label, skill_context_text, WheelSkill, mouse_input_interact, mp_label, skill_button_interact,
    skill_info_text, ButtonInteraction, RightClick, SkillClick, SkillContextStatus,
};

#[test]
fn skill_clicks() {
    let mut history = None;
    assert_eq!(
        skill_button_interact(SkillContextStatus::Closed, &mut history, SkillEnt(4)),
        SkillClick::Open(SkillEnt(4))
    );
    assert_eq!(history, Some(SkillEnt(4)));
    assert_eq!(
        skill_button_interact(SkillContextStatus::Open, &mut history, SkillEnt(5)),
        SkillClick::Redraw(SkillEnt(5))
    );
    assert_eq!(
        skill_button_interact(SkillContextStatus::Open, &mut history, SkillEnt(5)),
        SkillClick::SelectSkill(5)
    );
    assert_eq!(history, Some(SkillEnt(5)));
}

#[test]
fn right_clicks() {
    assert_eq!(mouse_input_interact(true, SkillContextStatus::Open), RightClick::HidePrompt);
    assert_eq!(mouse_input_interact(false, SkillContextStatus::Open), RightClick::HideContext);
    assert_eq!(mouse_input_interact(false, SkillContextStatus::Closed), RightClick::Ignore);
}

#[test]
fn button_and_bar_texts() {
    assert_eq!(combat_button_text(ButtonInteraction::Clicked, ControlMutex::Unit), "clicked");
    assert_eq!(combat_button_text(ButtonInteraction::Hovered, ControlMutex::Unit), "hovered");
    assert_eq!(combat_button_text(ButtonInteraction::Idle, ControlMutex::SystemTurn), "system");
    assert_eq!(hp_label(&Health(80)), "HP: 80");
    assert_eq!(mp_label(&Mana(-3)), "MP: -3");
}

#[test]
fn skill_info() {
    let text = skill_info_text(Some(&Damage(4)), None, Some(&Heal(2)), Some(&Channel(1)), &Target::AllyAOE);
    assert_eq!(text, "Deal 4 Damage\n\nHeal the target for 2\nChannel for 1 turn\nAllyAOE");
    let text = skill_info_text(None, Some(&Block(6)), None, None, &Target::NoneButSelf);
    assert_eq!(text, "\nGrant 6 Block\n\n\nNoneButSelf");
}

fn wheel_skill(ent: u64, learned: Learned, learnable: Vec<UnitArchetype>) -> WheelSkill {
    WheelSkill { ent, learned, learnable: LearnableArchetypes(learnable) }
}

#[test]
fn skill_wheel_shows_known_learnable_skills() {
    let skills = vec![
        wheel_skill(1, Learned::Basic, vec![UnitArchetype::PlayerRoot]),
        wheel_skill(2, Learned::NotLearned, vec![UnitArchetype::PlayerRoot]),
        wheel_skill(3, Learned::Learned, vec![UnitArchetype::AllyRoot, UnitArchetype::PlayerRoot]),
        wheel_skill(4, Learned::Learned, vec![UnitArchetype::EnemyZone1]),
        wheel_skill(5, Learned::Basic, vec![]),
    ];
    assert_eq!(draw_skill_icons(&skills, UnitArchetype::PlayerRoot), vec![1, 3]);
    assert_eq!(draw_skill_icons(&skills, UnitArchetype::AllyRoot), vec![3]);
    assert_eq!(draw_skill_icons(&skills, UnitArchetype::EnemyZone1), vec![4]);
    assert_eq!(draw_skill_icons(&Vec::new(), UnitArchetype::PlayerRoot), Vec::<u64>::new());
}

#[test]
fn menu_skill_context() {
    assert_eq!(
        skill_context_text(Some(&Damage(4)), Some(&Block(2)), Some(&Heal(1))),
        "Deal 4 points of Damage\nGrant 2 points of Block\nHeal the target for 1 points"
    );
    assert_eq!(skill_context_text(None, Some(&Block(7)), None), "\nGrant 7 points of Block\n");
    assert_eq!(skill_context_text(None, None, None), "\n\n");
}
