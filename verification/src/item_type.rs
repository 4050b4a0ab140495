use vstd::prelude::*;
use crate::color::{Color, NamedColor};
use crate::components::TrapType;
use crate::glyphs::{cp437, to_cp437};

verus! {

/// The kinds of item that can be spawned on the map.
#[derive(Clone, Copy, Debug, PartialEq, Eq, Structural)]
pub enum ItemType {
    HealthPotion,
    MagicMissileScroll,
    FireballScroll,
    ConfusionScroll,
    BearTrap,
    Caltrops,
}

/// The name of an item kind.
pub open spec fn spec_item_name(t: ItemType) -> Seq<char> {
    match t {
        ItemType::HealthPotion => "Health Potion"@,
        ItemType::MagicMissileScroll => "Scroll of Magic Missile"@,
        ItemType::FireballScroll => "Scroll of Fireball"@,
        ItemType::ConfusionScroll => "Scroll of Confusion"@,
        ItemType::BearTrap => "Bear Trap"@,
        ItemType::Caltrops => "Caltrops"@,
    }
}

/// The name of an item kind.
pub fn get_name_for_item(t: ItemType) -> (s: String)
    ensures
        s@ == spec_item_name(t),
{
    match t {
        ItemType::HealthPotion => String::from_str("Health Potion"),
        ItemType::MagicMissileScroll => String::from_str("Scroll of Magic Missile"),
        ItemType::FireballScroll => String::from_str("Scroll of Fireball"),
        ItemType::ConfusionScroll => String::from_str("Scroll of Confusion"),
        ItemType::BearTrap => String::from_str("Bear Trap"),
        ItemType::Caltrops => String::from_str("Caltrops"),
    }
}

/// The character an item kind is drawn with.
pub open spec fn spec_item_char(t: ItemType) -> char {
    match t {
        ItemType::HealthPotion => 'i',
        ItemType::MagicMissileScroll => ')',
        ItemType::FireballScroll => ')',
        ItemType::ConfusionScroll => ')',
        ItemType::BearTrap => '^',
        ItemType::Caltrops => '%',
    }
}

/// The glyph an item kind is drawn with.
pub fn get_glyph_for_item(t: ItemType) -> (g: u16)
    ensures
        g == cp437(spec_item_char(t)),
        g == spec_item_char(t) as u16,
{
    let c = match t {
        ItemType::HealthPotion => 'i',
        ItemType::MagicMissileScroll => ')',
        ItemType::FireballScroll => ')',
        ItemType::ConfusionScroll => ')',
        ItemType::BearTrap => '^',
        ItemType::Caltrops => '%',
    };
    to_cp437(c)
}

/// The foreground colour of an item kind.
pub open spec fn spec_item_fg(t: ItemType) -> Color {
    match t {
        ItemType::HealthPotion => Color::Named(NamedColor::LightBlue),
        ItemType::MagicMissileScroll => Color::Named(NamedColor::Cyan),
        ItemType::FireballScroll => Color::Named(NamedColor::Orange),
        ItemType::ConfusionScroll => Color::Named(NamedColor::Pink),
        ItemType::BearTrap => Color::Named(NamedColor::Yellow),
        ItemType::Caltrops => Color::Named(NamedColor::Yellow),
    }
}

/// The foreground colour of an item kind.
pub fn get_foreground_color_for_item(t: ItemType) -> (c: Color)
    ensures
        c == spec_item_fg(t),
{
    match t {
        ItemType::HealthPotion => Color::Named(NamedColor::LightBlue),
        ItemType::MagicMissileScroll => Color::Named(NamedColor::Cyan),
        ItemType::FireballScroll => Color::Named(NamedColor::Orange),
        ItemType::ConfusionScroll => Color::Named(NamedColor::Pink),
        ItemType::BearTrap => Color::Named(NamedColor::Yellow),
        ItemType::Caltrops => Color::Named(NamedColor::Yellow),
    }
}

/// Whether an item kind is used up on use: every kind that can be spawned is.
pub fn item_is_consumable(t: ItemType) -> (b: bool)
    ensures
        b,
{
    true
}

/// How far an item kind reaches when used.
pub open spec fn spec_item_range(t: ItemType) -> Option<i32> {
    match t {
        ItemType::HealthPotion => None,
        ItemType::MagicMissileScroll => Some(6),
        ItemType::FireballScroll => Some(6),
        ItemType::ConfusionScroll => Some(6),
        ItemType::BearTrap => Some(1),
        ItemType::Caltrops => Some(3),
    }
}

/// How far an item kind reaches when used.
pub fn get_range_for_item(t: ItemType) -> (r: Option<i32>)
    ensures
        r == spec_item_range(t),
{
    match t {
        ItemType::HealthPotion => None,
        ItemType::MagicMissileScroll => Some(6),
        ItemType::FireballScroll => Some(6),
        ItemType::ConfusionScroll => Some(6),
        ItemType::BearTrap => Some(1),
        ItemType::Caltrops => Some(3),
    }
}

/// The trap an item kind is, if it is one.
pub open spec fn spec_item_trap(t: ItemType) -> Option<TrapType> {
    match t {
        ItemType::BearTrap => Some(TrapType::BearTrap),
        ItemType::Caltrops => Some(TrapType::Caltrops),
        _ => None,
    }
}

/// The trap an item kind is, if it is one.
pub fn get_trap_type_for_item(t: ItemType) -> (r: Option<TrapType>)
    ensures
        r == spec_item_trap(t),
{
    match t {
        ItemType::BearTrap => Some(TrapType::BearTrap),
        ItemType::Caltrops => Some(TrapType::Caltrops),
        _ => None,
    }
}

/// The item a disarmed trap leaves behind.
pub open spec fn spec_item_for_trap(t: TrapType) -> ItemType {
    match t {
        TrapType::BearTrap => ItemType::BearTrap,
        TrapType::Caltrops => ItemType::Caltrops,
    }
}

} // verus!
