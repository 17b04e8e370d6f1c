//! Any tuple component that represents a basic stat implements `Stat`; any
//! component that can be shown on the skill context menu implements
//! `Description` and, behind an `Option`, `OptionDescription`.
use vstd::prelude::*;

use crate::component::{Block, Channel, Damage, Heal, Health, Mana, MaxHealth, MaxMana};
use crate::text::{decimal, push_decimal, str_to_string};

verus! {

/// A component that carries one basic stat.
pub trait Stat<T> {
    /// The stat's value.
    fn stat(&self) -> T;
}

/// A component that can describe itself to the player.
pub trait Description {
    /// A sentence that tells what the component does.
    fn get_description(&self) -> String;
}

/// An optional component: its description, or the empty string.
pub trait OptionDescription {
    /// The description of the component, or the empty string when absent.
    fn unwrap_description(&self) -> String;
}

/// "Heal the target for {heal}".
pub open spec fn heal_text(v: int) -> Seq<char> {
    "Heal the target for "@ + decimal(v)
}

/// "Grant {block} Block".
pub open spec fn block_text(v: int) -> Seq<char> {
    "Grant "@ + decimal(v) + " Block"@
}

/// "Deal {damage} Damage".
pub open spec fn damage_text(v: int) -> Seq<char> {
    "Deal "@ + decimal(v) + " Damage"@
}

/// "Channel for {n} turn", or "turns" for any count but one.
pub open spec fn channel_text(v: int) -> Seq<char> {
    "Channel for "@ + decimal(v) + if v == 1 {
        " turn"@
    } else {
        " turns"@
    }
}

impl Stat<i32> for Health {
    fn stat(&self) -> (r: i32)
        ensures
            r == self.0,
    {
        self.0
    }
}

impl Stat<i32> for Mana {
    fn stat(&self) -> (r: i32)
        ensures
            r == self.0,
    {
        self.0
    }
}

impl Stat<i32> for MaxHealth {
    fn stat(&self) -> (r: i32)
        ensures
            r == self.0,
    {
        self.0
    }
}

impl Stat<i32> for MaxMana {
    fn stat(&self) -> (r: i32)
        ensures
            r == self.0,
    {
        self.0
    }
}

impl Stat<i32> for Heal {
    fn stat(&self) -> (r: i32)
        ensures
            r == self.0,
    {
        self.0
    }
}

impl Stat<i32> for Block {
    fn stat(&self) -> (r: i32)
        ensures
            r == self.0,
    {
        self.0
    }
}

impl Stat<i32> for Damage {
    fn stat(&self) -> (r: i32)
        ensures
            r == self.0,
    {
        self.0
    }
}

impl Stat<u32> for Channel {
    fn stat(&self) -> (r: u32)
        ensures
            r == self.0,
    {
        self.0
    }
}

fn heal_description(v: i32) -> (s: String)
    ensures
        s@ == heal_text(v as int),
{
    let mut s = str_to_string("Heal the target for ");
    push_decimal(&mut s, v as i64);
    s
}

fn block_description(v: i32) -> (s: String)
    ensures
        s@ == block_text(v as int),
{
    let mut s = str_to_string("Grant ");
    push_decimal(&mut s, v as i64);
    s.append(" Block");
    s
}

fn damage_description(v: i32) -> (s: String)
    ensures
        s@ == damage_text(v as int),
{
    let mut s = str_to_string("Deal ");
    push_decimal(&mut s, v as i64);
    s.append(" Damage");
    s
}

fn channel_description(v: u32) -> (s: String)
    ensures
        s@ == channel_text(v as int),
{
    let mut s = str_to_string("Channel for ");
    push_decimal(&mut s, v as i64);
    if v == 1 {
        s.append(" turn");
    } else {
        s.append(" turns");
    }
    s
}

impl Description for Heal {
    fn get_description(&self) -> (s: String)
        ensures
            s@ == heal_text(self.0 as int),
    {
        heal_description(self.stat())
    }
}

impl Description for Block {
    fn get_description(&self) -> (s: String)
        ensures
            s@ == block_text(self.0 as int),
    {
        block_description(self.stat())
    }
}

impl Description for Damage {
    fn get_description(&self) -> (s: String)
        ensures
            s@ == damage_text(self.0 as int),
    {
        damage_description(self.stat())
    }
}

impl Description for Channel {
    fn get_description(&self) -> (s: String)
        ensures
            s@ == channel_text(self.0 as int),
    {
        channel_description(self.stat())
    }
}

impl<'a> OptionDescription for Option<&'a Heal> {
    fn unwrap_description(&self) -> (s: String)
        ensures
            s@ == match *self {
                Some(v) => heal_text(v.0 as int),
                None => Seq::<char>::empty(),
            },
    {
        match self {
            Some(value) => heal_description(value.stat()),
            None => String::new(),
        }
    }
}

impl<'a> OptionDescription for Option<&'a Block> {
    fn unwrap_description(&self) -> (s: String)
        ensures
            s@ == match *self {
                Some(v) => block_text(v.0 as int),
                None => Seq::<char>::empty(),
            },
    {
        match self {
            Some(value) => block_description(value.stat()),
            None => String::new(),
        }
    }
}

impl<'a> OptionDescription for Option<&'a Damage> {
    fn unwrap_description(&self) -> (s: String)
        ensures
            s@ == match *self {
                Some(v) => damage_text(v.0 as int),
                None => Seq::<char>::empty(),
            },
    {
        match self {
            Some(value) => damage_description(value.stat()),
            None => String::new(),
        }
    }
}

impl<'a> OptionDescription for Option<&'a Channel> {
    fn unwrap_description(&self) -> (s: String)
        ensures
            s@ == match *self {
                Some(v) => channel_text(v.0 as int),
                None => Seq::<char>::empty(),
            },
    {
        match self {
            Some(value) => channel_description(value.stat()),
            None => String::new(),
        }
    }
}

} // verus!
