//! Wire tags of the two tile tables: 32 bits for top-level tiles, 16 bits
//! for stack sub-tiles. The two tables are kept independent and verbatim;
//! they disagree on purpose for one legacy key tile.

use vstd::prelude::*;
use crate::tiles::LOStackTile;
use crate::tiles::LOTile;

verus! {

impl LOTile {
    /// The 32-bit wire tag of this tile variant.
    pub open spec fn spec_tag(self) -> u32 {
        match self {
            LOTile::Empty => 0x00,
            LOTile::Grass => 0x0A,
            LOTile::Dirt => 0x0B,
            LOTile::DirtPath => 0x3D,
            LOTile::Sand => 0x3B,
            LOTile::Snow => 0x3C,
            LOTile::OvergrownGrass => 0x38,
            LOTile::RedFlowers => 0x39,
            LOTile::YellowFlowers => 0x3A,
            LOTile::DeadGrass => 0x40,
            LOTile::SnowyGrass => 0x3F,
            LOTile::Gravel => 0x3E,
            LOTile::PineNeedles => 0x41,
            LOTile::WoodenFloor => 0x13,
            LOTile::StoneFloor => 0x44,
            LOTile::TileFloor => 0x45,
            LOTile::MarbleFloor => 0x46,
            LOTile::CobblestonePath => 0x4B,
            LOTile::Water => 0x0C,
            LOTile::Space => 0x17,
            LOTile::Sky => 0x50,
            LOTile::Cloud => 0x51,
            LOTile::Pit => 0x52,
            LOTile::Wall => 0x02,
            LOTile::WallWithWindow => 0x05,
            LOTile::WoodenWall => 0x48,
            LOTile::WoodenWallWithWindow => 0x57,
            LOTile::BrickWall => 0x49,
            LOTile::BrickWallWithWindow => 0x59,
            LOTile::StoneBrickWall => 0x4A,
            LOTile::StoneBrickWallWithWindow => 0x58,
            LOTile::Cliff => 0x5D,
            LOTile::RoughStone => 0x5E,
            LOTile::Bush => 0x14,
            LOTile::PineTree => 0x4C,
            LOTile::AutumnTree => 0x4D,
            LOTile::Tree => 0x4E,
            LOTile::DeadTree => 0x4F,
            LOTile::Pillar => 0x36,
            LOTile::WoodenFence => 0x42,
            LOTile::IronFence => 0x43,
            LOTile::Rock => 0x47,
            LOTile::Cattails => 0x5F,
            LOTile::TallGrass => 0x33,
            LOTile::Curtain => 0x53,
            LOTile::Lamppost => 0x61,
            LOTile::HotCoals => 0x10,
            LOTile::Ice => 0x12,
            LOTile::PacificFloor => 0x34,
            LOTile::BlockBarrier => 0x35,
            LOTile::SteppingStone => 0x11,
            LOTile::Waypoint => 0x1D,
            LOTile::LadderUp => 0x19,
            LOTile::LadderDown => 0x1A,
            LOTile::TrapdoorOverPit => 0x26,
            LOTile::TrapdoorOverWater => 0x27,
            LOTile::TrapdoorOverHotCoals => 0x5A,
            LOTile::TrapdoorOverIce => 0x5B,
            LOTile::TrapdoorOverPacificFloor => 0x5C,
            LOTile::GoalStar => 0x18,
            LOTile::PressurePlate { .. } => 0x2D,
            LOTile::SacrificeAltar { .. } => 0x60,
            LOTile::ToggleFloorInitiallyClosed => 0x31,
            LOTile::ToggleFloorInitiallyOpen => 0x32,
            LOTile::CrumblyWall => 0x06,
            LOTile::CrumblyBrickWall => 0x54,
            LOTile::CrumblyWoodenWall => 0x55,
            LOTile::CrumblyStoneBrickWall => 0x56,
            LOTile::MonsterGate => 0x0D,
            LOTile::InvertedMonsterGate => 0x16,
            LOTile::ToggleDoorInitiallyClosed => 0x2E,
            LOTile::ToggleDoorInitiallyOpen => 0x2F,
            LOTile::PrimeKey => 0x0E,
            LOTile::TerraKey => 0x1E,
            LOTile::SkyKey => 0x22,
            LOTile::InfernalKey => 0x20,
            LOTile::StarKey => 0x24,
            LOTile::PushBlock => 0x08,
            LOTile::MultiPushBlock => 0x09,
            LOTile::MonsterBlock => 0x29,
            LOTile::StartPoint { .. } => 0x03,
            LOTile::PrimeDoor => 0x0F,
            LOTile::TerraDoor => 0x1F,
            LOTile::SkyDoor => 0x23,
            LOTile::InfernalDoor => 0x21,
            LOTile::StarDoor => 0x25,
            LOTile::StatueRubble => 0x28,
            LOTile::PoisonTrail => 0x2C,
            LOTile::Sign { .. } => 0x37,
            LOTile::Stack { .. } => 0x62,
            LOTile::ToggleSwitch { .. } => 0x30,
            LOTile::AngryEye => 0x15,
            LOTile::BombBug { .. } => 0x1C,
            LOTile::Statue => 0x1B,
            LOTile::Slug { .. } => 0x2B,
            LOTile::FlyingSnake { .. } => 0x2A,
        }
    }

    /// The 32-bit wire tag of this tile variant.
    pub fn tag(&self) -> (r: u32)
        ensures
            r == self.spec_tag(),
    {
        match self {
            LOTile::Empty => 0x00,
            LOTile::Grass => 0x0A,
            LOTile::Dirt => 0x0B,
            LOTile::DirtPath => 0x3D,
            LOTile::Sand => 0x3B,
            LOTile::Snow => 0x3C,
            LOTile::OvergrownGrass => 0x38,
            LOTile::RedFlowers => 0x39,
            LOTile::YellowFlowers => 0x3A,
            LOTile::DeadGrass => 0x40,
            LOTile::SnowyGrass => 0x3F,
            LOTile::Gravel => 0x3E,
            LOTile::PineNeedles => 0x41,
            LOTile::WoodenFloor => 0x13,
            LOTile::StoneFloor => 0x44,
            LOTile::TileFloor => 0x45,
            LOTile::MarbleFloor => 0x46,
            LOTile::CobblestonePath => 0x4B,
            LOTile::Water => 0x0C,
            LOTile::Space => 0x17,
            LOTile::Sky => 0x50,
            LOTile::Cloud => 0x51,
            LOTile::Pit => 0x52,
            LOTile::Wall => 0x02,
            LOTile::WallWithWindow => 0x05,
            LOTile::WoodenWall => 0x48,
            LOTile::WoodenWallWithWindow => 0x57,
            LOTile::BrickWall => 0x49,
            LOTile::BrickWallWithWindow => 0x59,
            LOTile::StoneBrickWall => 0x4A,
            LOTile::StoneBrickWallWithWindow => 0x58,
            LOTile::Cliff => 0x5D,
            LOTile::RoughStone => 0x5E,
            LOTile::Bush => 0x14,
            LOTile::PineTree => 0x4C,
            LOTile::AutumnTree => 0x4D,
            LOTile::Tree => 0x4E,
            LOTile::DeadTree => 0x4F,
            LOTile::Pillar => 0x36,
            LOTile::WoodenFence => 0x42,
            LOTile::IronFence => 0x43,
            LOTile::Rock => 0x47,
            LOTile::Cattails => 0x5F,
            LOTile::TallGrass => 0x33,
            LOTile::Curtain => 0x53,
            LOTile::Lamppost => 0x61,
            LOTile::HotCoals => 0x10,
            LOTile::Ice => 0x12,
            LOTile::PacificFloor => 0x34,
            LOTile::BlockBarrier => 0x35,
            LOTile::SteppingStone => 0x11,
            LOTile::Waypoint => 0x1D,
            LOTile::LadderUp => 0x19,
            LOTile::LadderDown => 0x1A,
            LOTile::TrapdoorOverPit => 0x26,
            LOTile::TrapdoorOverWater => 0x27,
            LOTile::TrapdoorOverHotCoals => 0x5A,
            LOTile::TrapdoorOverIce => 0x5B,
            LOTile::TrapdoorOverPacificFloor => 0x5C,
            LOTile::GoalStar => 0x18,
            LOTile::PressurePlate { .. } => 0x2D,
            LOTile::SacrificeAltar { .. } => 0x60,
            LOTile::ToggleFloorInitiallyClosed => 0x31,
            LOTile::ToggleFloorInitiallyOpen => 0x32,
            LOTile::CrumblyWall => 0x06,
            LOTile::CrumblyBrickWall => 0x54,
            LOTile::CrumblyWoodenWall => 0x55,
            LOTile::CrumblyStoneBrickWall => 0x56,
            LOTile::MonsterGate => 0x0D,
            LOTile::InvertedMonsterGate => 0x16,
            LOTile::ToggleDoorInitiallyClosed => 0x2E,
            LOTile::ToggleDoorInitiallyOpen => 0x2F,
            LOTile::PrimeKey => 0x0E,
            LOTile::TerraKey => 0x1E,
            LOTile::SkyKey => 0x22,
            LOTile::InfernalKey => 0x20,
            LOTile::StarKey => 0x24,
            LOTile::PushBlock => 0x08,
            LOTile::MultiPushBlock => 0x09,
            LOTile::MonsterBlock => 0x29,
            LOTile::StartPoint { .. } => 0x03,
            LOTile::PrimeDoor => 0x0F,
            LOTile::TerraDoor => 0x1F,
            LOTile::SkyDoor => 0x23,
            LOTile::InfernalDoor => 0x21,
            LOTile::StarDoor => 0x25,
            LOTile::StatueRubble => 0x28,
            LOTile::PoisonTrail => 0x2C,
            LOTile::Sign { .. } => 0x37,
            LOTile::Stack { .. } => 0x62,
            LOTile::ToggleSwitch { .. } => 0x30,
            LOTile::AngryEye => 0x15,
            LOTile::BombBug { .. } => 0x1C,
            LOTile::Statue => 0x1B,
            LOTile::Slug { .. } => 0x2B,
            LOTile::FlyingSnake { .. } => 0x2A,
        }
    }
}

/// The payload-free tile a 32-bit wire tag stands for. Tags whose variants
/// carry a payload (plates, altars, switches, the start point, signs,
/// stacks, monsters with a facing) are not in this table; the decoder
/// handles them before consulting it.
pub open spec fn spec_plain_tile_from_tag(tag: u32) -> Option<LOTile> {
    if tag == 0x00 {
        Some(LOTile::Empty)
    } else if tag == 0x0A {
        Some(LOTile::Grass)
    } else if tag == 0x0B {
        Some(LOTile::Dirt)
    } else if tag == 0x3D {
        Some(LOTile::DirtPath)
    } else if tag == 0x3B {
        Some(LOTile::Sand)
    } else if tag == 0x3C {
        Some(LOTile::Snow)
    } else if tag == 0x38 {
        Some(LOTile::OvergrownGrass)
    } else if tag == 0x39 {
        Some(LOTile::RedFlowers)
    } else if tag == 0x3A {
        Some(LOTile::YellowFlowers)
    } else if tag == 0x40 {
        Some(LOTile::DeadGrass)
    } else if tag == 0x3F {
        Some(LOTile::SnowyGrass)
    } else if tag == 0x3E {
        Some(LOTile::Gravel)
    } else if tag == 0x41 {
        Some(LOTile::PineNeedles)
    } else if tag == 0x13 {
        Some(LOTile::WoodenFloor)
    } else if tag == 0x44 {
        Some(LOTile::StoneFloor)
    } else if tag == 0x45 {
        Some(LOTile::TileFloor)
    } else if tag == 0x46 {
        Some(LOTile::MarbleFloor)
    } else if tag == 0x4B {
        Some(LOTile::CobblestonePath)
    } else if tag == 0x0C {
        Some(LOTile::Water)
    } else if tag == 0x17 {
        Some(LOTile::Space)
    } else if tag == 0x50 {
        Some(LOTile::Sky)
    } else if tag == 0x51 {
        Some(LOTile::Cloud)
    } else if tag == 0x52 {
        Some(LOTile::Pit)
    } else if tag == 0x02 {
        Some(LOTile::Wall)
    } else if tag == 0x05 {
        Some(LOTile::WallWithWindow)
    } else if tag == 0x48 {
        Some(LOTile::WoodenWall)
    } else if tag == 0x57 {
        Some(LOTile::WoodenWallWithWindow)
    } else if tag == 0x49 {
        Some(LOTile::BrickWall)
    } else if tag == 0x59 {
        Some(LOTile::BrickWallWithWindow)
    } else if tag == 0x4A {
        Some(LOTile::StoneBrickWall)
    } else if tag == 0x58 {
        Some(LOTile::StoneBrickWallWithWindow)
    } else if tag == 0x5D {
        Some(LOTile::Cliff)
    } else if tag == 0x5E {
        Some(LOTile::RoughStone)
    } else if tag == 0x14 {
        Some(LOTile::Bush)
    } else if tag == 0x4C {
        Some(LOTile::PineTree)
    } else if tag == 0x4D {
        Some(LOTile::AutumnTree)
    } else if tag == 0x4E {
        Some(LOTile::Tree)
    } else if tag == 0x4F {
        Some(LOTile::DeadTree)
    } else if tag == 0x36 {
        Some(LOTile::Pillar)
    } else if tag == 0x42 {
        Some(LOTile::WoodenFence)
    } else if tag == 0x43 {
        Some(LOTile::IronFence)
    } else if tag == 0x47 {
        Some(LOTile::Rock)
    } else if tag == 0x5F {
        Some(LOTile::Cattails)
    } else if tag == 0x33 {
        Some(LOTile::TallGrass)
    } else if tag == 0x53 {
        Some(LOTile::Curtain)
    } else if tag == 0x61 {
        Some(LOTile::Lamppost)
    } else if tag == 0x10 {
        Some(LOTile::HotCoals)
    } else if tag == 0x12 {
        Some(LOTile::Ice)
    } else if tag == 0x34 {
        Some(LOTile::PacificFloor)
    } else if tag == 0x35 {
        Some(LOTile::BlockBarrier)
    } else if tag == 0x11 {
        Some(LOTile::SteppingStone)
    } else if tag == 0x1D {
        Some(LOTile::Waypoint)
    } else if tag == 0x19 {
        Some(LOTile::LadderUp)
    } else if tag == 0x1A {
        Some(LOTile::LadderDown)
    } else if tag == 0x26 {
        Some(LOTile::TrapdoorOverPit)
    } else if tag == 0x27 {
        Some(LOTile::TrapdoorOverWater)
    } else if tag == 0x5A {
        Some(LOTile::TrapdoorOverHotCoals)
    } else if tag == 0x5B {
        Some(LOTile::TrapdoorOverIce)
    } else if tag == 0x5C {
        Some(LOTile::TrapdoorOverPacificFloor)
    } else if tag == 0x18 {
        Some(LOTile::GoalStar)
    } else if tag == 0x31 {
        Some(LOTile::ToggleFloorInitiallyClosed)
    } else if tag == 0x32 {
        Some(LOTile::ToggleFloorInitiallyOpen)
    } else if tag == 0x06 {
        Some(LOTile::CrumblyWall)
    } else if tag == 0x54 {
        Some(LOTile::CrumblyBrickWall)
    } else if tag == 0x55 {
        Some(LOTile::CrumblyWoodenWall)
    } else if tag == 0x56 {
        Some(LOTile::CrumblyStoneBrickWall)
    } else if tag == 0x0D {
        Some(LOTile::MonsterGate)
    } else if tag == 0x16 {
        Some(LOTile::InvertedMonsterGate)
    } else if tag == 0x2E {
        Some(LOTile::ToggleDoorInitiallyClosed)
    } else if tag == 0x2F {
        Some(LOTile::ToggleDoorInitiallyOpen)
    } else if tag == 0x0E {
        Some(LOTile::PrimeKey)
    } else if tag == 0x1E {
        Some(LOTile::TerraKey)
    } else if tag == 0x22 {
        Some(LOTile::SkyKey)
    } else if tag == 0x20 {
        Some(LOTile::InfernalKey)
    } else if tag == 0x24 {
        Some(LOTile::StarKey)
    } else if tag == 0x08 {
        Some(LOTile::PushBlock)
    } else if tag == 0x09 {
        Some(LOTile::MultiPushBlock)
    } else if tag == 0x29 {
        Some(LOTile::MonsterBlock)
    } else if tag == 0x0F {
        Some(LOTile::PrimeDoor)
    } else if tag == 0x1F {
        Some(LOTile::TerraDoor)
    } else if tag == 0x23 {
        Some(LOTile::SkyDoor)
    } else if tag == 0x21 {
        Some(LOTile::InfernalDoor)
    } else if tag == 0x25 {
        Some(LOTile::StarDoor)
    } else if tag == 0x28 {
        Some(LOTile::StatueRubble)
    } else if tag == 0x2C {
        Some(LOTile::PoisonTrail)
    } else if tag == 0x15 {
        Some(LOTile::AngryEye)
    } else if tag == 0x1B {
        Some(LOTile::Statue)
    } else {
        None
    }
}

pub fn plain_tile_from_tag(tag: u32) -> (r: Option<LOTile>)
    ensures
        r == spec_plain_tile_from_tag(tag),
{
    match tag {
        0x00 => Some(LOTile::Empty),
        0x0A => Some(LOTile::Grass),
        0x0B => Some(LOTile::Dirt),
        0x3D => Some(LOTile::DirtPath),
        0x3B => Some(LOTile::Sand),
        0x3C => Some(LOTile::Snow),
        0x38 => Some(LOTile::OvergrownGrass),
        0x39 => Some(LOTile::RedFlowers),
        0x3A => Some(LOTile::YellowFlowers),
        0x40 => Some(LOTile::DeadGrass),
        0x3F => Some(LOTile::SnowyGrass),
        0x3E => Some(LOTile::Gravel),
        0x41 => Some(LOTile::PineNeedles),
        0x13 => Some(LOTile::WoodenFloor),
        0x44 => Some(LOTile::StoneFloor),
        0x45 => Some(LOTile::TileFloor),
        0x46 => Some(LOTile::MarbleFloor),
        0x4B => Some(LOTile::CobblestonePath),
        0x0C => Some(LOTile::Water),
        0x17 => Some(LOTile::Space),
        0x50 => Some(LOTile::Sky),
        0x51 => Some(LOTile::Cloud),
        0x52 => Some(LOTile::Pit),
        0x02 => Some(LOTile::Wall),
        0x05 => Some(LOTile::WallWithWindow),
        0x48 => Some(LOTile::WoodenWall),
        0x57 => Some(LOTile::WoodenWallWithWindow),
        0x49 => Some(LOTile::BrickWall),
        0x59 => Some(LOTile::BrickWallWithWindow),
        0x4A => Some(LOTile::StoneBrickWall),
        0x58 => Some(LOTile::StoneBrickWallWithWindow),
        0x5D => Some(LOTile::Cliff),
        0x5E => Some(LOTile::RoughStone),
        0x14 => Some(LOTile::Bush),
        0x4C => Some(LOTile::PineTree),
        0x4D => Some(LOTile::AutumnTree),
        0x4E => Some(LOTile::Tree),
        0x4F => Some(LOTile::DeadTree),
        0x36 => Some(LOTile::Pillar),
        0x42 => Some(LOTile::WoodenFence),
        0x43 => Some(LOTile::IronFence),
        0x47 => Some(LOTile::Rock),
        0x5F => Some(LOTile::Cattails),
        0x33 => Some(LOTile::TallGrass),
        0x53 => Some(LOTile::Curtain),
        0x61 => Some(LOTile::Lamppost),
        0x10 => Some(LOTile::HotCoals),
        0x12 => Some(LOTile::Ice),
        0x34 => Some(LOTile::PacificFloor),
        0x35 => Some(LOTile::BlockBarrier),
        0x11 => Some(LOTile::SteppingStone),
        0x1D => Some(LOTile::Waypoint),
        0x19 => Some(LOTile::LadderUp),
        0x1A => Some(LOTile::LadderDown),
        0x26 => Some(LOTile::TrapdoorOverPit),
        0x27 => Some(LOTile::TrapdoorOverWater),
        0x5A => Some(LOTile::TrapdoorOverHotCoals),
        0x5B => Some(LOTile::TrapdoorOverIce),
        0x5C => Some(LOTile::TrapdoorOverPacificFloor),
        0x18 => Some(LOTile::GoalStar),
        0x31 => Some(LOTile::ToggleFloorInitiallyClosed),
        0x32 => Some(LOTile::ToggleFloorInitiallyOpen),
        0x06 => Some(LOTile::CrumblyWall),
        0x54 => Some(LOTile::CrumblyBrickWall),
        0x55 => Some(LOTile::CrumblyWoodenWall),
        0x56 => Some(LOTile::CrumblyStoneBrickWall),
        0x0D => Some(LOTile::MonsterGate),
        0x16 => Some(LOTile::InvertedMonsterGate),
        0x2E => Some(LOTile::ToggleDoorInitiallyClosed),
        0x2F => Some(LOTile::ToggleDoorInitiallyOpen),
        0x0E => Some(LOTile::PrimeKey),
        0x1E => Some(LOTile::TerraKey),
        0x22 => Some(LOTile::SkyKey),
        0x20 => Some(LOTile::InfernalKey),
        0x24 => Some(LOTile::StarKey),
        0x08 => Some(LOTile::PushBlock),
        0x09 => Some(LOTile::MultiPushBlock),
        0x29 => Some(LOTile::MonsterBlock),
        0x0F => Some(LOTile::PrimeDoor),
        0x1F => Some(LOTile::TerraDoor),
        0x23 => Some(LOTile::SkyDoor),
        0x21 => Some(LOTile::InfernalDoor),
        0x25 => Some(LOTile::StarDoor),
        0x28 => Some(LOTile::StatueRubble),
        0x2C => Some(LOTile::PoisonTrail),
        0x15 => Some(LOTile::AngryEye),
        0x1B => Some(LOTile::Statue),
        _ => None,
    }
}

/// A payload-free tile decodes back from its own tag.
pub proof fn lemma_plain_tag_round_trip(t: LOTile)
    requires
        !(t is PressurePlate) && !(t is SacrificeAltar) && !(t is StartPoint) && !(t is Sign)
            && !(t is Stack) && !(t is ToggleSwitch) && !(t is BombBug) && !(t is Slug)
            && !(t is FlyingSnake),
    ensures
        spec_plain_tile_from_tag(t.spec_tag()) == Some(t),
{
}

impl LOStackTile {
    /// The 16-bit wire tag of this stack sub-tile. The legacy prime key is
    /// written as this tag followed by four zero bytes; `Custom` is written
    /// as its carried tag.
    pub open spec fn spec_tag(self) -> u16 {
        match self {
            LOStackTile::Empty => 0x00,
            LOStackTile::Grass => 0x0A,
            LOStackTile::Dirt => 0x0B,
            LOStackTile::DirtPath => 0x3D,
            LOStackTile::Sand => 0x3B,
            LOStackTile::Snow => 0x3C,
            LOStackTile::OvergrownGrass => 0x38,
            LOStackTile::RedFlowers => 0x39,
            LOStackTile::YellowFlowers => 0x3A,
            LOStackTile::DeadGrass => 0x40,
            LOStackTile::SnowyGrass => 0x3F,
            LOStackTile::Gravel => 0x3E,
            LOStackTile::PineNeedles => 0x41,
            LOStackTile::WoodenFloor => 0x13,
            LOStackTile::StoneFloor => 0x44,
            LOStackTile::TileFloor => 0x45,
            LOStackTile::MarbleFloor => 0x46,
            LOStackTile::CobblestonePath => 0x4B,
            LOStackTile::Water => 0x0C,
            LOStackTile::Space => 0x17,
            LOStackTile::Sky => 0x50,
            LOStackTile::Cloud => 0x51,
            LOStackTile::Pit => 0x52,
            LOStackTile::Wall => 0x02,
            LOStackTile::WallWithWindow => 0x05,
            LOStackTile::WoodenWall => 0x48,
            LOStackTile::WoodenWallWithWindow => 0x57,
            LOStackTile::BrickWall => 0x49,
            LOStackTile::BrickWallWithWindow => 0x59,
            LOStackTile::StoneBrickWall => 0x4A,
            LOStackTile::StoneBrickWallWithWindow => 0x58,
            LOStackTile::Cliff => 0x5D,
            LOStackTile::RoughStone => 0x5E,
            LOStackTile::Bush => 0x14,
            LOStackTile::PineTree => 0x4C,
            LOStackTile::AutumnTree => 0x4D,
            LOStackTile::Tree => 0x4E,
            LOStackTile::DeadTree => 0x4F,
            LOStackTile::Pillar => 0x36,
            LOStackTile::WoodenFence => 0x42,
            LOStackTile::IronFence => 0x43,
            LOStackTile::Rock => 0x47,
            LOStackTile::Cattails => 0x5F,
            LOStackTile::TallGrass => 0x33,
            LOStackTile::Curtain => 0x53,
            LOStackTile::Lamppost => 0x61,
            LOStackTile::SteppingStone => 0x11,
            LOStackTile::Waypoint => 0x1D,
            LOStackTile::LadderUp => 0x19,
            LOStackTile::LadderDown => 0x1A,
            LOStackTile::TrapdoorOverPit => 0x26,
            LOStackTile::TrapdoorOverWater => 0x27,
            LOStackTile::TrapdoorOverHotCoals => 0x5A,
            LOStackTile::TrapdoorOverIce => 0x5B,
            LOStackTile::TrapdoorOverPacificFloor => 0x5C,
            LOStackTile::GoalStar => 0x18,
            LOStackTile::CrumblyWall => 0x06,
            LOStackTile::CrumblyBrickWall => 0x54,
            LOStackTile::CrumblyWoodenWall => 0x55,
            LOStackTile::CrumblyStoneBrickWall => 0x56,
            LOStackTile::PrimeKey => 0x0E,
            LOStackTile::TerraKey => 0x1E,
            LOStackTile::SkyKey => 0x22,
            LOStackTile::InfernalKey => 0x20,
            LOStackTile::StarKey => 0x24,
            LOStackTile::PushBlock => 0x08,
            LOStackTile::MultiPushBlock => 0x09,
            LOStackTile::MonsterBlock => 0x29,
            LOStackTile::StartPoint => 0x03,
            LOStackTile::PrimeDoor => 0x0F,
            LOStackTile::TerraDoor => 0x1F,
            LOStackTile::SkyDoor => 0x23,
            LOStackTile::InfernalDoor => 0x21,
            LOStackTile::StarDoor => 0x25,
            LOStackTile::StatueRubble => 0x28,
            LOStackTile::PoisonTrail => 0x2C,
            LOStackTile::Sign => 0x37,
            LOStackTile::Stack => 0x62,
            LOStackTile::ToggleSwitch => 0x30,
            LOStackTile::AngryEye => 0x15,
            LOStackTile::BombBug => 0x1C,
            LOStackTile::Statue => 0x1B,
            LOStackTile::Slug => 0x2B,
            LOStackTile::FlyingSnake => 0x2A,
            LOStackTile::Custom { id } => id,
        }
    }

    /// The 16-bit wire tag of this stack sub-tile.
    pub fn tag(&self) -> (r: u16)
        ensures
            r == self.spec_tag(),
    {
        match self {
            LOStackTile::Empty => 0x00,
            LOStackTile::Grass => 0x0A,
            LOStackTile::Dirt => 0x0B,
            LOStackTile::DirtPath => 0x3D,
            LOStackTile::Sand => 0x3B,
            LOStackTile::Snow => 0x3C,
            LOStackTile::OvergrownGrass => 0x38,
            LOStackTile::RedFlowers => 0x39,
            LOStackTile::YellowFlowers => 0x3A,
            LOStackTile::DeadGrass => 0x40,
            LOStackTile::SnowyGrass => 0x3F,
            LOStackTile::Gravel => 0x3E,
            LOStackTile::PineNeedles => 0x41,
            LOStackTile::WoodenFloor => 0x13,
            LOStackTile::StoneFloor => 0x44,
            LOStackTile::TileFloor => 0x45,
            LOStackTile::MarbleFloor => 0x46,
            LOStackTile::CobblestonePath => 0x4B,
            LOStackTile::Water => 0x0C,
            LOStackTile::Space => 0x17,
            LOStackTile::Sky => 0x50,
            LOStackTile::Cloud => 0x51,
            LOStackTile::Pit => 0x52,
            LOStackTile::Wall => 0x02,
            LOStackTile::WallWithWindow => 0x05,
            LOStackTile::WoodenWall => 0x48,
            LOStackTile::WoodenWallWithWindow => 0x57,
            LOStackTile::BrickWall => 0x49,
            LOStackTile::BrickWallWithWindow => 0x59,
            LOStackTile::StoneBrickWall => 0x4A,
            LOStackTile::StoneBrickWallWithWindow => 0x58,
            LOStackTile::Cliff => 0x5D,
            LOStackTile::RoughStone => 0x5E,
            LOStackTile::Bush => 0x14,
            LOStackTile::PineTree => 0x4C,
            LOStackTile::AutumnTree => 0x4D,
            LOStackTile::Tree => 0x4E,
            LOStackTile::DeadTree => 0x4F,
            LOStackTile::Pillar => 0x36,
            LOStackTile::WoodenFence => 0x42,
            LOStackTile::IronFence => 0x43,
            LOStackTile::Rock => 0x47,
            LOStackTile::Cattails => 0x5F,
            LOStackTile::TallGrass => 0x33,
            LOStackTile::Curtain => 0x53,
            LOStackTile::Lamppost => 0x61,
            LOStackTile::SteppingStone => 0x11,
            LOStackTile::Waypoint => 0x1D,
            LOStackTile::LadderUp => 0x19,
            LOStackTile::LadderDown => 0x1A,
            LOStackTile::TrapdoorOverPit => 0x26,
            LOStackTile::TrapdoorOverWater => 0x27,
            LOStackTile::TrapdoorOverHotCoals => 0x5A,
            LOStackTile::TrapdoorOverIce => 0x5B,
            LOStackTile::TrapdoorOverPacificFloor => 0x5C,
            LOStackTile::GoalStar => 0x18,
            LOStackTile::CrumblyWall => 0x06,
            LOStackTile::CrumblyBrickWall => 0x54,
            LOStackTile::CrumblyWoodenWall => 0x55,
            LOStackTile::CrumblyStoneBrickWall => 0x56,
            LOStackTile::PrimeKey => 0x0E,
            LOStackTile::TerraKey => 0x1E,
            LOStackTile::SkyKey => 0x22,
            LOStackTile::InfernalKey => 0x20,
            LOStackTile::StarKey => 0x24,
            LOStackTile::PushBlock => 0x08,
            LOStackTile::MultiPushBlock => 0x09,
            LOStackTile::MonsterBlock => 0x29,
            LOStackTile::StartPoint => 0x03,
            LOStackTile::PrimeDoor => 0x0F,
            LOStackTile::TerraDoor => 0x1F,
            LOStackTile::SkyDoor => 0x23,
            LOStackTile::InfernalDoor => 0x21,
            LOStackTile::StarDoor => 0x25,
            LOStackTile::StatueRubble => 0x28,
            LOStackTile::PoisonTrail => 0x2C,
            LOStackTile::Sign => 0x37,
            LOStackTile::Stack => 0x62,
            LOStackTile::ToggleSwitch => 0x30,
            LOStackTile::AngryEye => 0x15,
            LOStackTile::BombBug => 0x1C,
            LOStackTile::Statue => 0x1B,
            LOStackTile::Slug => 0x2B,
            LOStackTile::FlyingSnake => 0x2A,
            LOStackTile::Custom { id } => *id,
        }
    }
}

/// The named stack sub-tile a 16-bit wire tag stands for. The legacy prime
/// key (whose tag needs four zero bytes after it) and `Custom` are handled
/// by the decoder before consulting this table.
pub open spec fn spec_stack_tile_from_tag(tag: u16) -> Option<LOStackTile> {
    if tag == 0x00 {
        Some(LOStackTile::Empty)
    } else if tag == 0x0A {
        Some(LOStackTile::Grass)
    } else if tag == 0x0B {
        Some(LOStackTile::Dirt)
    } else if tag == 0x3D {
        Some(LOStackTile::DirtPath)
    } else if tag == 0x3B {
        Some(LOStackTile::Sand)
    } else if tag == 0x3C {
        Some(LOStackTile::Snow)
    } else if tag == 0x38 {
        Some(LOStackTile::OvergrownGrass)
    } else if tag == 0x39 {
        Some(LOStackTile::RedFlowers)
    } else if tag == 0x3A {
        Some(LOStackTile::YellowFlowers)
    } else if tag == 0x40 {
        Some(LOStackTile::DeadGrass)
    } else if tag == 0x3F {
        Some(LOStackTile::SnowyGrass)
    } else if tag == 0x3E {
        Some(LOStackTile::Gravel)
    } else if tag == 0x41 {
        Some(LOStackTile::PineNeedles)
    } else if tag == 0x13 {
        Some(LOStackTile::WoodenFloor)
    } else if tag == 0x44 {
        Some(LOStackTile::StoneFloor)
    } else if tag == 0x45 {
        Some(LOStackTile::TileFloor)
    } else if tag == 0x46 {
        Some(LOStackTile::MarbleFloor)
    } else if tag == 0x4B {
        Some(LOStackTile::CobblestonePath)
    } else if tag == 0x0C {
        Some(LOStackTile::Water)
    } else if tag == 0x17 {
        Some(LOStackTile::Space)
    } else if tag == 0x50 {
        Some(LOStackTile::Sky)
    } else if tag == 0x51 {
        Some(LOStackTile::Cloud)
    } else if tag == 0x52 {
        Some(LOStackTile::Pit)
    } else if tag == 0x02 {
        Some(LOStackTile::Wall)
    } else if tag == 0x05 {
        Some(LOStackTile::WallWithWindow)
    } else if tag == 0x48 {
        Some(LOStackTile::WoodenWall)
    } else if tag == 0x57 {
        Some(LOStackTile::WoodenWallWithWindow)
    } else if tag == 0x49 {
        Some(LOStackTile::BrickWall)
    } else if tag == 0x59 {
        Some(LOStackTile::BrickWallWithWindow)
    } else if tag == 0x4A {
        Some(LOStackTile::StoneBrickWall)
    } else if tag == 0x58 {
        Some(LOStackTile::StoneBrickWallWithWindow)
    } else if tag == 0x5D {
        Some(LOStackTile::Cliff)
    } else if tag == 0x5E {
        Some(LOStackTile::RoughStone)
    } else if tag == 0x14 {
        Some(LOStackTile::Bush)
    } else if tag == 0x4C {
        Some(LOStackTile::PineTree)
    } else if tag == 0x4D {
        Some(LOStackTile::AutumnTree)
    } else if tag == 0x4E {
        Some(LOStackTile::Tree)
    } else if tag == 0x4F {
        Some(LOStackTile::DeadTree)
    } else if tag == 0x36 {
        Some(LOStackTile::Pillar)
    } else if tag == 0x42 {
        Some(LOStackTile::WoodenFence)
    } else if tag == 0x43 {
        Some(LOStackTile::IronFence)
    } else if tag == 0x47 {
        Some(LOStackTile::Rock)
    } else if tag == 0x5F {
        Some(LOStackTile::Cattails)
    } else if tag == 0x33 {
        Some(LOStackTile::TallGrass)
    } else if tag == 0x53 {
        Some(LOStackTile::Curtain)
    } else if tag == 0x61 {
        Some(LOStackTile::Lamppost)
    } else if tag == 0x11 {
        Some(LOStackTile::SteppingStone)
    } else if tag == 0x1D {
        Some(LOStackTile::Waypoint)
    } else if tag == 0x19 {
        Some(LOStackTile::LadderUp)
    } else if tag == 0x1A {
        Some(LOStackTile::LadderDown)
    } else if tag == 0x26 {
        Some(LOStackTile::TrapdoorOverPit)
    } else if tag == 0x27 {
        Some(LOStackTile::TrapdoorOverWater)
    } else if tag == 0x5A {
        Some(LOStackTile::TrapdoorOverHotCoals)
    } else if tag == 0x5B {
        Some(LOStackTile::TrapdoorOverIce)
    } else if tag == 0x5C {
        Some(LOStackTile::TrapdoorOverPacificFloor)
    } else if tag == 0x18 {
        Some(LOStackTile::GoalStar)
    } else if tag == 0x06 {
        Some(LOStackTile::CrumblyWall)
    } else if tag == 0x54 {
        Some(LOStackTile::CrumblyBrickWall)
    } else if tag == 0x55 {
        Some(LOStackTile::CrumblyWoodenWall)
    } else if tag == 0x56 {
        Some(LOStackTile::CrumblyStoneBrickWall)
    } else if tag == 0x1E {
        Some(LOStackTile::TerraKey)
    } else if tag == 0x22 {
        Some(LOStackTile::SkyKey)
    } else if tag == 0x20 {
        Some(LOStackTile::InfernalKey)
    } else if tag == 0x24 {
        Some(LOStackTile::StarKey)
    } else if tag == 0x08 {
        Some(LOStackTile::PushBlock)
    } else if tag == 0x09 {
        Some(LOStackTile::MultiPushBlock)
    } else if tag == 0x29 {
        Some(LOStackTile::MonsterBlock)
    } else if tag == 0x03 {
        Some(LOStackTile::StartPoint)
    } else if tag == 0x0F {
        Some(LOStackTile::PrimeDoor)
    } else if tag == 0x1F {
        Some(LOStackTile::TerraDoor)
    } else if tag == 0x23 {
        Some(LOStackTile::SkyDoor)
    } else if tag == 0x21 {
        Some(LOStackTile::InfernalDoor)
    } else if tag == 0x25 {
        Some(LOStackTile::StarDoor)
    } else if tag == 0x28 {
        Some(LOStackTile::StatueRubble)
    } else if tag == 0x2C {
        Some(LOStackTile::PoisonTrail)
    } else if tag == 0x37 {
        Some(LOStackTile::Sign)
    } else if tag == 0x62 {
        Some(LOStackTile::Stack)
    } else if tag == 0x30 {
        Some(LOStackTile::ToggleSwitch)
    } else if tag == 0x15 {
        Some(LOStackTile::AngryEye)
    } else if tag == 0x1C {
        Some(LOStackTile::BombBug)
    } else if tag == 0x1B {
        Some(LOStackTile::Statue)
    } else if tag == 0x2B {
        Some(LOStackTile::Slug)
    } else if tag == 0x2A {
        Some(LOStackTile::FlyingSnake)
    } else {
        None
    }
}

pub fn stack_tile_from_tag(tag: u16) -> (r: Option<LOStackTile>)
    ensures
        r == spec_stack_tile_from_tag(tag),
{
    match tag {
        0x00 => Some(LOStackTile::Empty),
        0x0A => Some(LOStackTile::Grass),
        0x0B => Some(LOStackTile::Dirt),
        0x3D => Some(LOStackTile::DirtPath),
        0x3B => Some(LOStackTile::Sand),
        0x3C => Some(LOStackTile::Snow),
        0x38 => Some(LOStackTile::OvergrownGrass),
        0x39 => Some(LOStackTile::RedFlowers),
        0x3A => Some(LOStackTile::YellowFlowers),
        0x40 => Some(LOStackTile::DeadGrass),
        0x3F => Some(LOStackTile::SnowyGrass),
        0x3E => Some(LOStackTile::Gravel),
        0x41 => Some(LOStackTile::PineNeedles),
        0x13 => Some(LOStackTile::WoodenFloor),
        0x44 => Some(LOStackTile::StoneFloor),
        0x45 => Some(LOStackTile::TileFloor),
        0x46 => Some(LOStackTile::MarbleFloor),
        0x4B => Some(LOStackTile::CobblestonePath),
        0x0C => Some(LOStackTile::Water),
        0x17 => Some(LOStackTile::Space),
        0x50 => Some(LOStackTile::Sky),
        0x51 => Some(LOStackTile::Cloud),
        0x52 => Some(LOStackTile::Pit),
        0x02 => Some(LOStackTile::Wall),
        0x05 => Some(LOStackTile::WallWithWindow),
        0x48 => Some(LOStackTile::WoodenWall),
        0x57 => Some(LOStackTile::WoodenWallWithWindow),
        0x49 => Some(LOStackTile::BrickWall),
        0x59 => Some(LOStackTile::BrickWallWithWindow),
        0x4A => Some(LOStackTile::StoneBrickWall),
        0x58 => Some(LOStackTile::StoneBrickWallWithWindow),
        0x5D => Some(LOStackTile::Cliff),
        0x5E => Some(LOStackTile::RoughStone),
        0x14 => Some(LOStackTile::Bush),
        0x4C => Some(LOStackTile::PineTree),
        0x4D => Some(LOStackTile::AutumnTree),
        0x4E => Some(LOStackTile::Tree),
        0x4F => Some(LOStackTile::DeadTree),
        0x36 => Some(LOStackTile::Pillar),
        0x42 => Some(LOStackTile::WoodenFence),
        0x43 => Some(LOStackTile::IronFence),
        0x47 => Some(LOStackTile::Rock),
        0x5F => Some(LOStackTile::Cattails),
        0x33 => Some(LOStackTile::TallGrass),
        0x53 => Some(LOStackTile::Curtain),
        0x61 => Some(LOStackTile::Lamppost),
        0x11 => Some(LOStackTile::SteppingStone),
        0x1D => Some(LOStackTile::Waypoint),
        0x19 => Some(LOStackTile::LadderUp),
        0x1A => Some(LOStackTile::LadderDown),
        0x26 => Some(LOStackTile::TrapdoorOverPit),
        0x27 => Some(LOStackTile::TrapdoorOverWater),
        0x5A => Some(LOStackTile::TrapdoorOverHotCoals),
        0x5B => Some(LOStackTile::TrapdoorOverIce),
        0x5C => Some(LOStackTile::TrapdoorOverPacificFloor),
        0x18 => Some(LOStackTile::GoalStar),
        0x06 => Some(LOStackTile::CrumblyWall),
        0x54 => Some(LOStackTile::CrumblyBrickWall),
        0x55 => Some(LOStackTile::CrumblyWoodenWall),
        0x56 => Some(LOStackTile::CrumblyStoneBrickWall),
        0x1E => Some(LOStackTile::TerraKey),
        0x22 => Some(LOStackTile::SkyKey),
        0x20 => Some(LOStackTile::InfernalKey),
        0x24 => Some(LOStackTile::StarKey),
        0x08 => Some(LOStackTile::PushBlock),
        0x09 => Some(LOStackTile::MultiPushBlock),
        0x29 => Some(LOStackTile::MonsterBlock),
        0x03 => Some(LOStackTile::StartPoint),
        0x0F => Some(LOStackTile::PrimeDoor),
        0x1F => Some(LOStackTile::TerraDoor),
        0x23 => Some(LOStackTile::SkyDoor),
        0x21 => Some(LOStackTile::InfernalDoor),
        0x25 => Some(LOStackTile::StarDoor),
        0x28 => Some(LOStackTile::StatueRubble),
        0x2C => Some(LOStackTile::PoisonTrail),
        0x37 => Some(LOStackTile::Sign),
        0x62 => Some(LOStackTile::Stack),
        0x30 => Some(LOStackTile::ToggleSwitch),
        0x15 => Some(LOStackTile::AngryEye),
        0x1C => Some(LOStackTile::BombBug),
        0x1B => Some(LOStackTile::Statue),
        0x2B => Some(LOStackTile::Slug),
        0x2A => Some(LOStackTile::FlyingSnake),
        _ => None,
    }
}

/// A named stack sub-tile, prime key aside, decodes back from its own tag.
pub proof fn lemma_stack_tag_round_trip(t: LOStackTile)
    requires
        !(t is Custom),
        !(t is PrimeKey),
    ensures
        spec_stack_tile_from_tag(t.spec_tag()) == Some(t),
{
}

/// A tag the payload-free table knows decodes to a tile carrying that tag.
pub proof fn lemma_plain_tag_inverse(tag: u32)
    requires
        spec_plain_tile_from_tag(tag) is Some,
    ensures
        spec_plain_tile_from_tag(tag)->Some_0.spec_tag() == tag,
{
}

} // verus!
