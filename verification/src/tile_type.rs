//! The tile tag stored in each layer of the grid, its walkability,
//! sprite lookup, multi-cell footprints, and interaction effects.

use vstd::prelude::*;

use crate::combat::Health;
use crate::message::{msgs_view, Message, MessageColor};

verus! {

/// A tile tag: either a concrete tile type, or `ReferTo(base_index)`,
/// the indirection cell of a multi-cell decorative object pointing back
/// at the one canonical cell that holds the real type.
#[derive(Clone, Copy, Debug, PartialEq, Eq, Structural)]
pub enum TileType {
    Empty,
    Grass,
    Dirt,
    FenceHorizontal,
    FenceVertical,
    Bush,
    Flower,
    Road,
    HayCart,
    ReferTo(usize),
    Barn,
    LeftButte,
    CaveMouth,
    Cauldron,
    CobbleTL,
    CobbleT,
    CobbleTR,
    CobbleL,
    Cobble,
    CobbleR,
    CobbleBL,
    CobbleB,
    CobbleBR,
    WaterL,
    WaterTL,
    WaterT,
    WaterTR,
    WaterR,
    WaterBL,
    WaterB,
    WaterBR,
    WaterTB,
    WaterV2,
    WaterV3,
    WaterV4,
    WaterV5,
    WaterV6,
    Anvil,
    CaveFloor,
    Water,
    Grain,
    Fire,
    GoldEgg,
    Web,
}

/// Whether a concrete tile type may be entered. Indirection cells are
/// resolved by the grid before this is consulted; on a bare `ReferTo`
/// it follows the permissive default.
pub open spec fn tile_walkable(t: TileType) -> bool {
    match t {
        TileType::FenceHorizontal => false,
        TileType::FenceVertical => false,
        TileType::Bush => false,
        TileType::HayCart => false,
        TileType::Barn => false,
        TileType::Anvil => false,
        TileType::CaveMouth => false,
        TileType::Water => false,
        TileType::WaterV2 => false,
        TileType::WaterV3 => false,
        TileType::WaterV4 => false,
        TileType::WaterV5 => false,
        TileType::WaterV6 => false,
        TileType::Fire => false,
        _ => true,
    }
}

/// The sprite-sheet index a concrete tile type is drawn with.
pub open spec fn tile_sprite_index(t: TileType) -> int {
    match t {
        TileType::Dirt => 1,
        TileType::FenceHorizontal => 2,
        TileType::FenceVertical => 3,
        TileType::Bush => 4,
        TileType::Flower => 5,
        TileType::Road => 6,
        TileType::Cauldron => 7,
        TileType::Anvil => 8,
        TileType::CaveFloor => 9,
        TileType::Water => 10,
        TileType::Grain => 11,
        TileType::Fire => 12,
        TileType::GoldEgg => 13,
        TileType::CobbleTL => 19,
        TileType::CobbleT => 20,
        TileType::CobbleTR => 21,
        TileType::CobbleL => 35,
        TileType::Cobble => 36,
        TileType::CobbleR => 37,
        TileType::CobbleBL => 51,
        TileType::CobbleB => 52,
        TileType::CobbleBR => 53,
        TileType::WaterL => 22,
        TileType::WaterTL => 23,
        TileType::WaterT => 24,
        TileType::WaterTR => 25,
        TileType::WaterR => 26,
        TileType::WaterBL => 27,
        TileType::WaterB => 28,
        TileType::WaterBR => 29,
        TileType::WaterTB => 31,
        TileType::WaterV2 => 38,
        TileType::WaterV3 => 39,
        TileType::WaterV4 => 40,
        TileType::WaterV5 => 41,
        TileType::WaterV6 => 42,
        _ => 0,
    }
}

/// The console lines each tile type offers when interacted with,
/// with their exact texts and colour tags.
pub open spec fn interact_messages(t: TileType) -> Seq<(Seq<char>, MessageColor)> {
    match t {
        TileType::FenceHorizontal | TileType::FenceVertical => seq![
            ("There's a fence here. Maybe you can Jump over it?"@, MessageColor::White),
        ],
        TileType::Bush => seq![
            ("This bush is prickly, but you might be able to jump it."@, MessageColor::White),
        ],
        TileType::Cauldron => seq![
            ("I guess that explains why you're a 6 foot tall chicken!"@, MessageColor::Yellow),
            ("Farmer Tom's Magic Miracle Grow"@, MessageColor::Yellow),
        ],
        TileType::Grain => seq![("Yummy, grain!"@, MessageColor::Green)],
        _ => Seq::empty(),
    }
}

impl TileType {
    /// Sprite-sheet index of this tile type.
    pub fn index(&self) -> (r: usize)
        ensures
            r as int == tile_sprite_index(*self),
    {
        match self {
            TileType::Dirt => 1,
            TileType::FenceHorizontal => 2,
            TileType::FenceVertical => 3,
            TileType::Bush => 4,
            TileType::Flower => 5,
            TileType::Road => 6,
            TileType::Cauldron => 7,
            TileType::Anvil => 8,
            TileType::CaveFloor => 9,
            TileType::Water => 10,
            TileType::Grain => 11,
            TileType::Fire => 12,
            TileType::GoldEgg => 13,
            TileType::CobbleTL => 19,
            TileType::CobbleT => 20,
            TileType::CobbleTR => 21,
            TileType::CobbleL => 35,
            TileType::Cobble => 36,
            TileType::CobbleR => 37,
            TileType::CobbleBL => 51,
            TileType::CobbleB => 52,
            TileType::CobbleBR => 53,
            TileType::WaterL => 22,
            TileType::WaterTL => 23,
            TileType::WaterT => 24,
            TileType::WaterTR => 25,
            TileType::WaterR => 26,
            TileType::WaterBL => 27,
            TileType::WaterB => 28,
            TileType::WaterBR => 29,
            TileType::WaterTB => 31,
            TileType::WaterV2 => 38,
            TileType::WaterV3 => 39,
            TileType::WaterV4 => 40,
            TileType::WaterV5 => 41,
            TileType::WaterV6 => 42,
            _ => 0,
        }
    }

    /// Whether the renderer draws this tile at all: empty cells and
    /// indirection cells are invisible.
    pub fn should_render(&self) -> (r: bool)
        ensures
            r == !(*self == TileType::Empty || self is ReferTo),
    {
        match self {
            TileType::Empty => false,
            TileType::ReferTo(..) => false,
            _ => true,
        }
    }

    /// For a multi-cell decorative object, its footprint: width, height,
    /// and the sprite indices of each covered cell, row by row.
    pub fn extra_big(&self) -> (r: Option<(i32, i32, Vec<usize>)>)
        ensures
            *self == TileType::HayCart ==> (r matches Some(t) && t.0 == 3 && t.1 == 2 && t.2@
                =~= seq![16usize, 17, 18, 32, 33, 34]),
            *self == TileType::Barn ==> (r matches Some(t) && t.0 == 2 && t.1 == 3 && t.2@
                =~= seq![48usize, 49, 64, 65, 80, 81]),
            *self == TileType::LeftButte ==> (r matches Some(t) && t.0 == 2 && t.1 == 7 && t.2@
                =~= seq![112usize, 113, 128, 129, 144, 145, 160, 161, 176, 177, 192, 193, 208, 209]),
            *self == TileType::CaveMouth ==> (r matches Some(t) && t.0 == 6 && t.1 == 1 && t.2@
                =~= seq![178usize, 179, 180, 181, 182, 183]),
            !(*self == TileType::HayCart || *self == TileType::Barn || *self == TileType::LeftButte
                || *self == TileType::CaveMouth) ==> r is None,
    {
        match self {
            TileType::HayCart => Some((3, 2, vec![16, 17, 18, 32, 33, 34])),
            TileType::Barn => Some((2, 3, vec![48, 49, 64, 65, 80, 81])),
            TileType::LeftButte => Some((
                2,
                7,
                vec![112, 113, 128, 129, 144, 145, 160, 161, 176, 177, 192, 193, 208, 209],
            )),
            TileType::CaveMouth => Some((6, 1, vec![178, 179, 180, 181, 182, 183])),
            _ => None,
        }
    }

    /// Whether a concrete tile type may be entered.
    pub fn can_player_enter(&self) -> (r: bool)
        ensures
            r == tile_walkable(*self),
    {
        match self {
            TileType::FenceHorizontal
            | TileType::FenceVertical
            | TileType::Bush
            | TileType::HayCart
            | TileType::Barn
            | TileType::Anvil
            | TileType::CaveMouth
            | TileType::Water
            | TileType::WaterV2
            | TileType::WaterV3
            | TileType::WaterV4
            | TileType::WaterV5
            | TileType::WaterV6
            | TileType::Fire => false,
            _ => true,
        }
    }

    /// The interaction effect of this tile: exactly the console lines
    /// of `interact_messages`, and a full heal when grain is eaten.
    pub fn interact(&self, health: &mut Health) -> (msgs: Vec<Message>)
        requires
            old(health).wf(),
        ensures
            final(health).wf(),
            final(health).max == old(health).max,
            *self == TileType::Grain ==> final(health).current == old(health).max,
            *self != TileType::Grain ==> *final(health) == *old(health),
            msgs_view(msgs@) == interact_messages(*self),
    {
        let mut msgs: Vec<Message> = Vec::new();
        match self {
            TileType::FenceHorizontal | TileType::FenceVertical => {
                msgs.push(
                    Message::new(
                        "There's a fence here. Maybe you can Jump over it?",
                        MessageColor::White,
                    ),
                );
            },
            TileType::Bush => {
                msgs.push(
                    Message::new(
                        "This bush is prickly, but you might be able to jump it.",
                        MessageColor::White,
                    ),
                );
            },
            TileType::Cauldron => {
                msgs.push(
                    Message::new(
                        "I guess that explains why you're a 6 foot tall chicken!",
                        MessageColor::Yellow,
                    ),
                );
                msgs.push(Message::new("Farmer Tom's Magic Miracle Grow", MessageColor::Yellow));
            },
            TileType::Grain => {
                msgs.push(Message::new("Yummy, grain!", MessageColor::Green));
                health.current = health.max;
            },
            _ => {},
        }
        proof {
            assert(msgs_view(msgs@) =~= interact_messages(*self));
        }
        msgs
    }
}

} // verus!
