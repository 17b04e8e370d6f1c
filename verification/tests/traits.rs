use bevy_rpg::component::{Block, Channel, Damage, Heal, Health, Mana, MaxHealth, MaxMana};
use bevy_rpg::text::decimal_string;
use bevy_rpg::traits::{Description, OptionDescription, Stat};

#[test]
fn custom_trait_check_stat_impl_macro() {
    let a = Block(3);
    assert_eq!(a.stat(), 3);
    assert_eq!(a.get_description(), "Grant 3 Block".to_string());
}

#[test]
fn custom_trait_check_desc_impl_macro() {
    let a = Heal(2);
    assert_eq!(a.get_description(), "Heal the target for 2".to_string())
}

#[test]
fn traits_check_stat_impl_macro() {
    let a = Block(3);
    assert_eq!(a.stat(), 3);
    assert_eq!(a.get_description(), "Grant 3 Block".to_string());
}

#[test]
fn traits_check_desc_impl_macro() {
    let a = Heal(2);
    assert_eq!(a.get_description(), "Heal the target for 2".to_string())
}

#[test]
fn check_none_unwrap() {
    let a: Option<&Damage> = None;
    assert_eq!(a.unwrap_description(), String::new())
}

#[test]
fn check_some_unwrap() {
    let a: Option<&Damage> = Some(&Damage(83));
    assert_eq!(a.unwrap_description(), "Deal 83 Damage".to_string())
}

#[test]
fn channel_descriptions() {
    assert_eq!(Channel(1).get_description(), "Channel for 1 turn".to_string());
    assert_eq!(Channel(3).get_description(), "Channel for 3 turns".to_string());
    assert_eq!(Channel(0).get_description(), "Channel for 0 turns".to_string());
    let none: Option<&Channel> = None;
    assert_eq!(none.unwrap_description(), String::new());
    assert_eq!(Some(&Channel(2)).unwrap_description(), "Channel for 2 turns".to_string());
}

#[test]
fn other_descriptions_and_stats() {
    assert_eq!(Damage(-4).get_description(), "Deal -4 Damage".to_string());
    assert_eq!(Some(&Block(10)).unwrap_description(), "Grant 10 Block".to_string());
    assert_eq!(Some(&Heal(7)).unwrap_description(), "Heal the target for 7".to_string());
    let no_heal: Option<&Heal> = None;
    assert_eq!(no_heal.unwrap_description(), String::new());
    let no_block: Option<&Block> = None;
    assert_eq!(no_block.unwrap_description(), String::new());
    assert_eq!(Health(100).stat(), 100);
    assert_eq!(Mana(30).stat(), 30);
    assert_eq!(MaxHealth(80).stat(), 80);
    assert_eq!(MaxMana(20).stat(), 20);
    assert_eq!(Heal(2).stat(), 2);
    assert_eq!(Damage(9).stat(), 9);
    assert_eq!(Channel(4).stat(), 4);
}

#[test]
fn decimal_notation() {
    assert_eq!(decimal_string(0), "0".to_string());
    assert_eq!(decimal_string(7), "7".to_string());
    assert_eq!(decimal_string(10), "10".to_string());
    assert_eq!(decimal_string(1234567890), "1234567890".to_string());
    assert_eq!(decimal_string(-305), "-305".to_string());
    assert_eq!(decimal_string(i64::MIN), i64::MIN.to_string());
    assert_eq!(decimal_string(i64::MAX), i64::MAX.to_string());
}
