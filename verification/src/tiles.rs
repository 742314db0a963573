//! The tile taxonomy: every tile variant the file format knows and the
//! classification predicates the layering engine dispatches on.
//!
//! The predicates partition the non-empty tiles into the groups
//! floor / wall / obstacle / puzzle floor / puzzle obstacle / layer-3 /
//! layer-4 / layer-5-or-monster; trapdoors are a subset of the puzzle
//! obstacles and crumbly walls a subset of the layer-3 group.

use vstd::prelude::*;

verus! {

/// Facing direction carried by monsters and the start point.
#[derive(Clone, Copy, Debug, PartialEq, Eq, Structural)]
pub enum LODirection {
    Up,
    Right,
    Down,
    Left,
}

impl LODirection {
    /// The 32-bit value this direction is written as.
    pub open spec fn spec_code(self) -> u32 {
        match self {
            LODirection::Up => 0,
            LODirection::Right => 1,
            LODirection::Down => 2,
            LODirection::Left => 3,
        }
    }

    /// The direction a 32-bit wire value stands for, if any.
    pub open spec fn spec_from_code(code: u32) -> Option<LODirection> {
        if code == 0 {
            Some(LODirection::Up)
        } else if code == 1 {
            Some(LODirection::Right)
        } else if code == 2 {
            Some(LODirection::Down)
        } else if code == 3 {
            Some(LODirection::Left)
        } else {
            None
        }
    }

    pub fn code(self) -> (r: u32)
        ensures
            r == self.spec_code(),
    {
        match self {
            LODirection::Up => 0,
            LODirection::Right => 1,
            LODirection::Down => 2,
            LODirection::Left => 3,
        }
    }

    pub fn from_code(code: u32) -> (r: Option<LODirection>)
        ensures
            r == LODirection::spec_from_code(code),
    {
        if code == 0 {
            Some(LODirection::Up)
        } else if code == 1 {
            Some(LODirection::Right)
        } else if code == 2 {
            Some(LODirection::Down)
        } else if code == 3 {
            Some(LODirection::Left)
        } else {
            None
        }
    }
}

/// Round trip between a direction and its wire code.
pub proof fn lemma_direction_code_round_trip(d: LODirection)
    ensures
        LODirection::spec_from_code(d.spec_code()) == Some(d),
{
}

/// Facing direction of an element inside a layer-5 stack, written as 16 bits.
#[derive(Clone, Copy, Debug, PartialEq, Eq, Structural)]
pub enum LOStackDirection {
    Up,
    Right,
    Down,
    Left,
}

impl LOStackDirection {
    /// The 16-bit value this direction is written as.
    pub open spec fn spec_code(self) -> u16 {
        match self {
            LOStackDirection::Up => 0,
            LOStackDirection::Right => 1,
            LOStackDirection::Down => 2,
            LOStackDirection::Left => 3,
        }
    }

    /// The direction a 16-bit wire value stands for, if any.
    pub open spec fn spec_from_code(code: u16) -> Option<LOStackDirection> {
        if code == 0 {
            Some(LOStackDirection::Up)
        } else if code == 1 {
            Some(LOStackDirection::Right)
        } else if code == 2 {
            Some(LOStackDirection::Down)
        } else if code == 3 {
            Some(LOStackDirection::Left)
        } else {
            None
        }
    }

    pub fn code(self) -> (r: u16)
        ensures
            r == self.spec_code(),
    {
        match self {
            LOStackDirection::Up => 0,
            LOStackDirection::Right => 1,
            LOStackDirection::Down => 2,
            LOStackDirection::Left => 3,
        }
    }

    pub fn from_code(code: u16) -> (r: Option<LOStackDirection>)
        ensures
            r == LOStackDirection::spec_from_code(code),
    {
        if code == 0 {
            Some(LOStackDirection::Up)
        } else if code == 1 {
            Some(LOStackDirection::Right)
        } else if code == 2 {
            Some(LOStackDirection::Down)
        } else if code == 3 {
            Some(LOStackDirection::Left)
        } else {
            None
        }
    }
}

/// Music selector of a room, written as a signed 32-bit value.
#[derive(Clone, Copy, Debug, PartialEq, Eq, Structural)]
pub enum LOMusic {
    Silence,
    ThrowRock,
    Outside,
    Quest,
    Crystal,
    Peril,
    Marble,
    Descent,
    Aqua,
    Beyond,
    Shards,
    Superfluid,
    Dust,
    Dread,
    Aspire,
    Rapture,
}

impl LOMusic {
    /// The signed 32-bit value this selector is written as.
    pub open spec fn spec_code(self) -> i32 {
        match self {
            LOMusic::Silence => -1i32,
            LOMusic::ThrowRock => 0,
            LOMusic::Outside => 1,
            LOMusic::Quest => 2,
            LOMusic::Crystal => 3,
            LOMusic::Peril => 4,
            LOMusic::Marble => 5,
            LOMusic::Descent => 6,
            LOMusic::Aqua => 7,
            LOMusic::Beyond => 8,
            LOMusic::Shards => 9,
            LOMusic::Superfluid => 10,
            LOMusic::Dust => 11,
            LOMusic::Dread => 12,
            LOMusic::Aspire => 13,
            LOMusic::Rapture => 14,
        }
    }

    /// The selector a signed 32-bit wire value stands for, if any.
    pub open spec fn spec_from_code(code: i32) -> Option<LOMusic> {
        if code == -1 {
            Some(LOMusic::Silence)
        } else if code == 0 {
            Some(LOMusic::ThrowRock)
        } else if code == 1 {
            Some(LOMusic::Outside)
        } else if code == 2 {
            Some(LOMusic::Quest)
        } else if code == 3 {
            Some(LOMusic::Crystal)
        } else if code == 4 {
            Some(LOMusic::Peril)
        } else if code == 5 {
            Some(LOMusic::Marble)
        } else if code == 6 {
            Some(LOMusic::Descent)
        } else if code == 7 {
            Some(LOMusic::Aqua)
        } else if code == 8 {
            Some(LOMusic::Beyond)
        } else if code == 9 {
            Some(LOMusic::Shards)
        } else if code == 10 {
            Some(LOMusic::Superfluid)
        } else if code == 11 {
            Some(LOMusic::Dust)
        } else if code == 12 {
            Some(LOMusic::Dread)
        } else if code == 13 {
            Some(LOMusic::Aspire)
        } else if code == 14 {
            Some(LOMusic::Rapture)
        } else {
            None
        }
    }

    pub fn code(self) -> (r: i32)
        ensures
            r == self.spec_code(),
    {
        match self {
            LOMusic::Silence => -1i32,
            LOMusic::ThrowRock => 0,
            LOMusic::Outside => 1,
            LOMusic::Quest => 2,
            LOMusic::Crystal => 3,
            LOMusic::Peril => 4,
            LOMusic::Marble => 5,
            LOMusic::Descent => 6,
            LOMusic::Aqua => 7,
            LOMusic::Beyond => 8,
            LOMusic::Shards => 9,
            LOMusic::Superfluid => 10,
            LOMusic::Dust => 11,
            LOMusic::Dread => 12,
            LOMusic::Aspire => 13,
            LOMusic::Rapture => 14,
        }
    }

    pub fn from_code(code: i32) -> (r: Option<LOMusic>)
        ensures
            r == LOMusic::spec_from_code(code),
    {
        if code == -1 {
            Some(LOMusic::Silence)
        } else if code == 0 {
            Some(LOMusic::ThrowRock)
        } else if code == 1 {
            Some(LOMusic::Outside)
        } else if code == 2 {
            Some(LOMusic::Quest)
        } else if code == 3 {
            Some(LOMusic::Crystal)
        } else if code == 4 {
            Some(LOMusic::Peril)
        } else if code == 5 {
            Some(LOMusic::Marble)
        } else if code == 6 {
            Some(LOMusic::Descent)
        } else if code == 7 {
            Some(LOMusic::Aqua)
        } else if code == 8 {
            Some(LOMusic::Beyond)
        } else if code == 9 {
            Some(LOMusic::Shards)
        } else if code == 10 {
            Some(LOMusic::Superfluid)
        } else if code == 11 {
            Some(LOMusic::Dust)
        } else if code == 12 {
            Some(LOMusic::Dread)
        } else if code == 13 {
            Some(LOMusic::Aspire)
        } else if code == 14 {
            Some(LOMusic::Rapture)
        } else {
            None
        }
    }
}

/// A tile-space coordinate pair linking a trigger to a remote gate or door.
#[derive(Clone, Copy, Debug, PartialEq, Eq, Structural)]
pub struct LOConnection {
    pub x_position: u16,
    pub y_position: u16,
}

/// One entity of a layer-5 stack cell: a restricted sub-tile, its facing,
/// and (for a toggle switch only) its connection list.
#[derive(Clone, Debug, PartialEq, Eq)]
pub struct LOStackElement {
    pub tile: LOStackTile,
    pub direction: LOStackDirection,
    pub connections: Vec<LOConnection>,
}

/// A tile as it appears at the top level of a layer, keyed by a 32-bit wire
/// tag. Most variants carry no payload; a few carry a facing direction,
/// free text, a connection list, or a stack of sub-tiles.
#[derive(Clone, Debug, PartialEq, Eq)]
pub enum LOTile {
    Empty,
    // Floor tiles (layer 1)
    Grass,
    Dirt,
    DirtPath,
    Sand,
    Snow,
    OvergrownGrass,
    RedFlowers,
    YellowFlowers,
    DeadGrass,
    SnowyGrass,
    Gravel,
    PineNeedles,
    WoodenFloor,
    StoneFloor,
    TileFloor,
    MarbleFloor,
    CobblestonePath,
    Water,
    Space,
    Sky,
    Cloud,
    Pit,
    // Walls (layer 1)
    Wall,
    WallWithWindow,
    WoodenWall,
    WoodenWallWithWindow,
    BrickWall,
    BrickWallWithWindow,
    StoneBrickWall,
    StoneBrickWallWithWindow,
    Cliff,
    RoughStone,
    // Obstacles (layer 2)
    Bush,
    PineTree,
    AutumnTree,
    Tree,
    DeadTree,
    Pillar,
    WoodenFence,
    IronFence,
    Rock,
    Cattails,
    TallGrass,
    Curtain,
    Lamppost,
    // Puzzle elements on layer 1
    HotCoals,
    Ice,
    PacificFloor,
    BlockBarrier,
    // Puzzle elements on layer 2
    SteppingStone,
    Waypoint,
    LadderUp,
    LadderDown,
    TrapdoorOverPit,
    TrapdoorOverWater,
    TrapdoorOverHotCoals,
    TrapdoorOverIce,
    TrapdoorOverPacificFloor,
    GoalStar,
    PressurePlate { connections: Vec<LOConnection> },
    SacrificeAltar { connections: Vec<LOConnection> },
    ToggleFloorInitiallyClosed,
    ToggleFloorInitiallyOpen,
    // Puzzle elements on layer 3
    CrumblyWall,
    CrumblyBrickWall,
    CrumblyWoodenWall,
    CrumblyStoneBrickWall,
    MonsterGate,
    InvertedMonsterGate,
    ToggleDoorInitiallyClosed,
    ToggleDoorInitiallyOpen,
    // Puzzle elements on layer 4
    PrimeKey,
    TerraKey,
    SkyKey,
    InfernalKey,
    StarKey,
    PushBlock,
    MultiPushBlock,
    MonsterBlock,
    StartPoint { direction: LODirection },
    // Puzzle elements on layer 5
    PrimeDoor,
    TerraDoor,
    SkyDoor,
    InfernalDoor,
    StarDoor,
    StatueRubble,
    PoisonTrail,
    Sign { text: Vec<u8> },
    Stack { tiles: Vec<LOStackElement> },
    ToggleSwitch { connections: Vec<LOConnection> },
    // Monsters (layer 5)
    AngryEye,
    BombBug { direction: LODirection },
    Statue,
    Slug { direction: LODirection },
    FlyingSnake { direction: LODirection },
}

/// A tile as it appears inside a layer-5 stack cell, keyed by a 16-bit wire
/// tag. The table deliberately repeats the top-level taxonomy with its own
/// tag assignments (one legacy key tile differs); the two tables must stay
/// independent for on-disk compatibility. `Custom` carries a tag the
/// taxonomy does not know, for experimentation.
#[derive(Clone, Copy, Debug, PartialEq, Eq, Structural)]
pub enum LOStackTile {
    Empty,
    // Floor tiles
    Grass,
    Dirt,
    DirtPath,
    Sand,
    Snow,
    OvergrownGrass,
    RedFlowers,
    YellowFlowers,
    DeadGrass,
    SnowyGrass,
    Gravel,
    PineNeedles,
    WoodenFloor,
    StoneFloor,
    TileFloor,
    MarbleFloor,
    CobblestonePath,
    Water,
    Space,
    Sky,
    Cloud,
    Pit,
    // Walls
    Wall,
    WallWithWindow,
    WoodenWall,
    WoodenWallWithWindow,
    BrickWall,
    BrickWallWithWindow,
    StoneBrickWall,
    StoneBrickWallWithWindow,
    Cliff,
    RoughStone,
    // Obstacles
    Bush,
    PineTree,
    AutumnTree,
    Tree,
    DeadTree,
    Pillar,
    WoodenFence,
    IronFence,
    Rock,
    Cattails,
    TallGrass,
    Curtain,
    Lamppost,
    // Puzzle elements on layer 2
    SteppingStone,
    Waypoint,
    LadderUp,
    LadderDown,
    TrapdoorOverPit,
    TrapdoorOverWater,
    TrapdoorOverHotCoals,
    TrapdoorOverIce,
    TrapdoorOverPacificFloor,
    GoalStar,
    // Puzzle elements on layer 3
    CrumblyWall,
    CrumblyBrickWall,
    CrumblyWoodenWall,
    CrumblyStoneBrickWall,
    // Puzzle elements on layer 4
    PrimeKey,
    TerraKey,
    SkyKey,
    InfernalKey,
    StarKey,
    PushBlock,
    MultiPushBlock,
    MonsterBlock,
    StartPoint,
    // Puzzle elements on layer 5
    PrimeDoor,
    TerraDoor,
    SkyDoor,
    InfernalDoor,
    StarDoor,
    StatueRubble,
    PoisonTrail,
    Sign,
    Stack,
    ToggleSwitch,
    // Monsters
    AngryEye,
    BombBug,
    Statue,
    Slug,
    FlyingSnake,
    // A tag outside the taxonomy, written as given.
    Custom { id: u16 },
}

impl LOTile {
    /// Floor tiles (layer 1).
    pub open spec fn spec_is_floor(self) -> bool {
        self is Grass || self is Dirt || self is DirtPath || self is Sand || self is Snow
            || self is OvergrownGrass || self is RedFlowers || self is YellowFlowers
            || self is DeadGrass || self is SnowyGrass || self is Gravel || self is PineNeedles
            || self is WoodenFloor || self is StoneFloor || self is TileFloor
            || self is MarbleFloor || self is CobblestonePath || self is Water || self is Space
            || self is Sky || self is Cloud || self is Pit
    }

    /// Walls (layer 1).
    pub open spec fn spec_is_wall(self) -> bool {
        self is Wall || self is WallWithWindow || self is WoodenWall
            || self is WoodenWallWithWindow || self is BrickWall || self is BrickWallWithWindow
            || self is StoneBrickWall || self is StoneBrickWallWithWindow || self is Cliff
            || self is RoughStone
    }

    /// Decorative obstacles (layer 2).
    pub open spec fn spec_is_obstacle(self) -> bool {
        self is Bush || self is PineTree || self is AutumnTree || self is Tree
            || self is DeadTree || self is Pillar || self is WoodenFence || self is IronFence
            || self is Rock || self is Cattails || self is TallGrass || self is Curtain
            || self is Lamppost
    }

    /// Puzzle elements that live on layer 1.
    pub open spec fn spec_is_puzzle_floor(self) -> bool {
        self is HotCoals || self is Ice || self is PacificFloor || self is BlockBarrier
    }

    /// Puzzle elements that live on layer 2; trapdoors are included.
    pub open spec fn spec_is_puzzle_obstacle(self) -> bool {
        self.spec_is_trapdoor() || self is SteppingStone || self is Waypoint || self is LadderUp
            || self is LadderDown || self is GoalStar || self is PressurePlate
            || self is SacrificeAltar || self is ToggleFloorInitiallyClosed
            || self is ToggleFloorInitiallyOpen
    }

    /// Trapdoors (layer 2).
    pub open spec fn spec_is_trapdoor(self) -> bool {
        self is TrapdoorOverPit || self is TrapdoorOverWater || self is TrapdoorOverHotCoals
            || self is TrapdoorOverIce || self is TrapdoorOverPacificFloor
    }

    /// Puzzle elements that live on layer 3; crumbly walls are included.
    pub open spec fn spec_is_puzzle_layer3(self) -> bool {
        self.spec_is_crumbly_wall() || self is MonsterGate || self is InvertedMonsterGate
            || self is ToggleDoorInitiallyClosed || self is ToggleDoorInitiallyOpen
    }

    /// Crumbly walls (layer 3).
    pub open spec fn spec_is_crumbly_wall(self) -> bool {
        self is CrumblyWall || self is CrumblyBrickWall || self is CrumblyWoodenWall
            || self is CrumblyStoneBrickWall
    }

    /// Puzzle elements that live on layer 4.
    pub open spec fn spec_is_puzzle_layer4(self) -> bool {
        self is PrimeKey || self is TerraKey || self is SkyKey || self is InfernalKey
            || self is StarKey || self is PushBlock || self is MultiPushBlock
            || self is MonsterBlock || self is StartPoint
    }

    /// Puzzle elements that live on layer 5, monsters aside.
    pub open spec fn spec_is_puzzle_layer5(self) -> bool {
        self is PrimeDoor || self is TerraDoor || self is SkyDoor || self is InfernalDoor
            || self is StarDoor || self is StatueRubble || self is PoisonTrail || self is Sign
            || self is Stack || self is ToggleSwitch
    }

    /// Monsters (layer 5).
    pub open spec fn spec_is_monster(self) -> bool {
        self is AngryEye || self is BombBug || self is Statue || self is Slug
            || self is FlyingSnake
    }

    /// A tile the write dispatcher accepts: member of some taxonomy group.
    pub open spec fn spec_is_writable(self) -> bool {
        self.spec_is_floor() || self.spec_is_wall() || self.spec_is_obstacle()
            || self.spec_is_puzzle_obstacle() || self.spec_is_puzzle_layer3()
            || self.spec_is_puzzle_layer4() || self.spec_is_puzzle_layer5()
            || self.spec_is_monster()
    }

    pub fn is_floor(&self) -> (r: bool)
        ensures
            r == self.spec_is_floor(),
    {
        matches!(
            self,
            Self::Grass
                | Self::Dirt
                | Self::DirtPath
                | Self::Sand
                | Self::Snow
                | Self::OvergrownGrass
                | Self::RedFlowers
                | Self::YellowFlowers
                | Self::DeadGrass
                | Self::SnowyGrass
                | Self::Gravel
                | Self::PineNeedles
                | Self::WoodenFloor
                | Self::StoneFloor
                | Self::TileFloor
                | Self::MarbleFloor
                | Self::CobblestonePath
                | Self::Water
                | Self::Space
                | Self::Sky
                | Self::Cloud
                | Self::Pit
        )
    }

    pub fn is_wall(&self) -> (r: bool)
        ensures
            r == self.spec_is_wall(),
    {
        matches!(
            self,
            Self::Wall
                | Self::WallWithWindow
                | Self::WoodenWall
                | Self::WoodenWallWithWindow
                | Self::BrickWall
                | Self::BrickWallWithWindow
                | Self::StoneBrickWall
                | Self::StoneBrickWallWithWindow
                | Self::Cliff
                | Self::RoughStone
        )
    }

    pub fn is_obstacle(&self) -> (r: bool)
        ensures
            r == self.spec_is_obstacle(),
    {
        matches!(
            self,
            Self::Bush
                | Self::PineTree
                | Self::AutumnTree
                | Self::Tree
                | Self::DeadTree
                | Self::Pillar
                | Self::WoodenFence
                | Self::IronFence
                | Self::Rock
                | Self::Cattails
                | Self::TallGrass
                | Self::Curtain
                | Self::Lamppost
        )
    }

    pub fn is_puzzle_floor(&self) -> (r: bool)
        ensures
            r == self.spec_is_puzzle_floor(),
    {
        matches!(self, Self::HotCoals | Self::Ice | Self::PacificFloor | Self::BlockBarrier)
    }

    pub fn is_puzzle_obstacle(&self) -> (r: bool)
        ensures
            r == self.spec_is_puzzle_obstacle(),
    {
        self.is_trapdoor() || matches!(
            self,
            Self::SteppingStone
                | Self::Waypoint
                | Self::LadderUp
                | Self::LadderDown
                | Self::GoalStar
                | Self::PressurePlate { .. }
                | Self::SacrificeAltar { .. }
                | Self::ToggleFloorInitiallyClosed
                | Self::ToggleFloorInitiallyOpen
        )
    }

    pub fn is_trapdoor(&self) -> (r: bool)
        ensures
            r == self.spec_is_trapdoor(),
    {
        matches!(
            self,
            Self::TrapdoorOverPit
                | Self::TrapdoorOverWater
                | Self::TrapdoorOverHotCoals
                | Self::TrapdoorOverIce
                | Self::TrapdoorOverPacificFloor
        )
    }

    /// The ordered list of floor variants a trapdoor accepts beneath it,
    /// the first entry being the canonical one.
    pub open spec fn spec_trapdoor_floors(self) -> Seq<LOTile> {
        match self {
            LOTile::TrapdoorOverPit => seq![LOTile::Pit, LOTile::Space, LOTile::Sky, LOTile::Cloud],
            LOTile::TrapdoorOverWater => seq![LOTile::Water],
            LOTile::TrapdoorOverPacificFloor => seq![LOTile::PacificFloor],
            LOTile::TrapdoorOverHotCoals => seq![LOTile::HotCoals],
            LOTile::TrapdoorOverIce => seq![LOTile::Ice],
            _ => Seq::empty(),
        }
    }

    /// Compatible floors of a trapdoor; first is canonical, never empty.
    pub fn get_trapdoor_floors(&self) -> (r: Vec<LOTile>)
        requires
            self.spec_is_trapdoor(),
        ensures
            r@ == self.spec_trapdoor_floors(),
            r@.len() > 0,
    {
        let r: Vec<LOTile> = match self {
            LOTile::TrapdoorOverPit => vec![LOTile::Pit, LOTile::Space, LOTile::Sky, LOTile::Cloud],
            LOTile::TrapdoorOverWater => vec![LOTile::Water],
            LOTile::TrapdoorOverPacificFloor => vec![LOTile::PacificFloor],
            LOTile::TrapdoorOverHotCoals => vec![LOTile::HotCoals],
            LOTile::TrapdoorOverIce => vec![LOTile::Ice],
            _ => vec![],
        };
        proof {
            assert(r@ =~= self.spec_trapdoor_floors());
        }
        r
    }

    pub fn is_puzzle_layer3(&self) -> (r: bool)
        ensures
            r == self.spec_is_puzzle_layer3(),
    {
        self.is_crumbly_wall() || matches!(
            self,
            Self::MonsterGate
                | Self::InvertedMonsterGate
                | Self::ToggleDoorInitiallyClosed
                | Self::ToggleDoorInitiallyOpen
        )
    }

    pub fn is_crumbly_wall(&self) -> (r: bool)
        ensures
            r == self.spec_is_crumbly_wall(),
    {
        matches!(
            self,
            Self::CrumblyWall
                | Self::CrumblyBrickWall
                | Self::CrumblyWoodenWall
                | Self::CrumblyStoneBrickWall
        )
    }

    pub fn is_puzzle_layer4(&self) -> (r: bool)
        ensures
            r == self.spec_is_puzzle_layer4(),
    {
        matches!(
            self,
            Self::PrimeKey
                | Self::TerraKey
                | Self::SkyKey
                | Self::InfernalKey
                | Self::StarKey
                | Self::PushBlock
                | Self::MultiPushBlock
                | Self::MonsterBlock
                | Self::StartPoint { .. }
        )
    }

    pub fn is_puzzle_layer5(&self) -> (r: bool)
        ensures
            r == self.spec_is_puzzle_layer5(),
    {
        matches!(
            self,
            Self::PrimeDoor
                | Self::TerraDoor
                | Self::SkyDoor
                | Self::InfernalDoor
                | Self::StarDoor
                | Self::StatueRubble
                | Self::PoisonTrail
                | Self::Sign { .. }
                | Self::Stack { .. }
                | Self::ToggleSwitch { .. }
        )
    }

    pub fn is_monster(&self) -> (r: bool)
        ensures
            r == self.spec_is_monster(),
    {
        matches!(
            self,
            Self::AngryEye
                | Self::BombBug { .. }
                | Self::Statue
                | Self::Slug { .. }
                | Self::FlyingSnake { .. }
        )
    }

    /// Whether two tiles are the same variant, payloads aside.
    pub fn same_type_as(&self, other: &Self) -> (r: bool)
        ensures
            r == (self.spec_tag() == other.spec_tag()),
    {
        self.tag() == other.tag()
    }
}

/// Every non-empty tile belongs to exactly one of the eight taxonomy groups
/// (counting trapdoors inside the puzzle obstacles, crumbly walls inside the
/// layer-3 group, and monsters together with the other layer-5 elements).
pub proof fn lemma_taxonomy_partition(t: LOTile)
    ensures
        !(t is Empty) ==> {
            let groups =
                (if t.spec_is_floor() { 1int } else { 0int })
                + (if t.spec_is_wall() { 1int } else { 0int })
                + (if t.spec_is_obstacle() { 1int } else { 0int })
                + (if t.spec_is_puzzle_floor() { 1int } else { 0int })
                + (if t.spec_is_puzzle_obstacle() { 1int } else { 0int })
                + (if t.spec_is_puzzle_layer3() { 1int } else { 0int })
                + (if t.spec_is_puzzle_layer4() { 1int } else { 0int })
                + (if t.spec_is_puzzle_layer5() || t.spec_is_monster() { 1int } else { 0int });
            groups == 1
        },
        t.spec_is_trapdoor() ==> t.spec_is_puzzle_obstacle(),
        t.spec_is_crumbly_wall() ==> t.spec_is_puzzle_layer3(),
        !(t.spec_is_puzzle_layer5() && t.spec_is_monster()),
{
}

} // verus!
