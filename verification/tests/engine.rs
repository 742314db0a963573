use leafs_odyssey_data::builder::{Room, World};
use leafs_odyssey_data::data::{LOStemContent, LOWorld};
use leafs_odyssey_data::decode::decode;
use leafs_odyssey_data::encode::encode;
use leafs_odyssey_data::guid::Author;
use leafs_odyssey_data::selection::TileSelection;
use leafs_odyssey_data::tilemap::Tilemap;
use leafs_odyssey_data::tiles::{LODirection, LOMusic, LOTile};

fn cell<'a>(map: &'a Tilemap, layer: u8, x: usize, y: usize) -> &'a LOTile {
    let l = map.get_layer(layer);
    &l.tiles[y * (l.width as usize) + x]
}

#[test]
fn add_rect_is_idempotent() {
    let once = TileSelection::new(10, 8).add_rect(2, 3, 4, 2);
    let twice = once.clone().add_rect(2, 3, 4, 2);
    assert_eq!(once.bools, twice.bools);
    assert_eq!(once.get_selection(), twice.get_selection());
}

#[test]
fn invert_all_is_an_involution() {
    let base = TileSelection::new(7, 5).add_rect(1, 1, 3, 3).add(6, 4);
    let back = base.clone().invert_all().invert_all();
    assert_eq!(base.bools, back.bools);
}

#[test]
fn rects_clamp_at_the_grid_edge() {
    let m = TileSelection::new(4, 4).add_rect(2, 2, 10, 10);
    let sel = m.get_selection();
    assert_eq!(sel, vec![(2, 2), (3, 2), (2, 3), (3, 3)]);
}

#[test]
fn wall_cascade_keeps_puzzle_obstacles_but_stomps_pillars() {
    let mut map = Tilemap::new(4, 3);
    let pillar_at = map.select().add(1, 1);
    map.write_obstacle(&LOTile::Pillar, &pillar_at);
    let star_at = map.select().add(2, 1);
    map.write_obstacle(&LOTile::GoalStar, &star_at);
    let bush_at = map.select().add(3, 1);
    map.write_obstacle(&LOTile::Bush, &bush_at);

    let all = map.select_all();
    map.write_wall(&LOTile::Wall, &all);

    for y in 0..3 {
        for x in 0..4 {
            assert_eq!(cell(&map, Tilemap::LAYER1, x, y), &LOTile::Wall);
        }
    }
    // The pillar and the plain obstacle are stomped; the puzzle obstacle
    // survives the wall write.
    assert_eq!(cell(&map, Tilemap::LAYER2, 1, 1), &LOTile::Empty);
    assert_eq!(cell(&map, Tilemap::LAYER2, 3, 1), &LOTile::Empty);
    assert_eq!(cell(&map, Tilemap::LAYER2, 2, 1), &LOTile::GoalStar);
    assert_eq!(cell(&map, Tilemap::LAYER3, 0, 0), &LOTile::Empty);
    assert_eq!(cell(&map, Tilemap::LAYER4, 0, 0), &LOTile::Empty);
    assert_eq!(cell(&map, Tilemap::LAYER5, 0, 0), &LOTile::Empty);
}

#[test]
fn trapdoor_canonicalizes_incompatible_floors_only() {
    let mut map = Tilemap::new(3, 2);
    // Put real water under one cell; the other keeps its grass.
    let wet = map.select().add(1, 0);
    map.write_floor(&LOTile::Water, &wet);

    let both = map.select().add(0, 0).add(1, 0);
    map.write(&LOTile::TrapdoorOverWater, &both);

    // Grass was incompatible and becomes the canonical floor (water);
    // existing water is left untouched; both cells get the trapdoor.
    assert_eq!(cell(&map, Tilemap::LAYER1, 0, 0), &LOTile::Water);
    assert_eq!(cell(&map, Tilemap::LAYER1, 1, 0), &LOTile::Water);
    assert_eq!(cell(&map, Tilemap::LAYER2, 0, 0), &LOTile::TrapdoorOverWater);
    assert_eq!(cell(&map, Tilemap::LAYER2, 1, 0), &LOTile::TrapdoorOverWater);
    // An untouched cell keeps its grass floor.
    assert_eq!(cell(&map, Tilemap::LAYER1, 2, 0), &LOTile::Grass);
}

#[test]
fn crumbly_wall_evicts_key_and_monster() {
    let mut map = Tilemap::new(2, 2);
    let spot = map.select().add(0, 0);
    map.write(&LOTile::PrimeKey, &spot);
    map.write(&LOTile::AngryEye, &spot);
    assert_eq!(cell(&map, Tilemap::LAYER4, 0, 0), &LOTile::PrimeKey);
    assert_eq!(cell(&map, Tilemap::LAYER5, 0, 0), &LOTile::AngryEye);

    map.write(&LOTile::CrumblyWall, &spot);
    assert_eq!(cell(&map, Tilemap::LAYER3, 0, 0), &LOTile::CrumblyWall);
    assert_eq!(cell(&map, Tilemap::LAYER4, 0, 0), &LOTile::Empty);
    assert_eq!(cell(&map, Tilemap::LAYER5, 0, 0), &LOTile::Empty);
}

#[test]
fn built_world_survives_the_codec() {
    let mut world = World::new()
        .with_metadata("one room", "a single walled room")
        .with_identity("444DEC65", Author::new("someone", "65D50024-C5A59B05"));
    let mut room: Room = world.new_room((0, 0, 0));
    let all = room.tilemap.select_all();
    room.tilemap.write(&LOTile::Wall, &all);
    let origin = room.tilemap.select().add(0, 0);
    room.tilemap.write(
        &LOTile::StartPoint { direction: LODirection::Down },
        &origin,
    );
    let room = room.with_metadata("the room", LOMusic::Aqua);
    world.rooms.push(room);

    let mut doc: LOWorld = LOWorld::try_from(world).expect("valid GUIDs");
    let bytes = encode(&mut doc).expect("encodable document");
    let back = decode(&bytes).expect("own encoding decodes");
    assert_eq!(back, doc);

    // The descriptor lists exactly one room of the canonical size.
    match &back.stems[0].content {
        LOStemContent::TileZoneMap { room_info, .. } => {
            assert_eq!(room_info.len(), 1);
            assert_eq!(room_info[0].id, 1);
            assert_eq!(room_info[0].width, 24);
            assert_eq!(room_info[0].height, 16);
        }
        _ => panic!("descriptor stem missing"),
    }
    // The room's layers: walls everywhere on layer one, the start point
    // alone at the origin of layer four.
    match &back.stems[1].content {
        LOStemContent::TileMapEdit { layers, width, height, music, .. } => {
            assert_eq!((*width, *height), (24, 16));
            assert_eq!(*music, LOMusic::Aqua);
            assert!(layers[0].tiles.iter().all(|t| *t == LOTile::Wall));
            assert_eq!(
                layers[3].tiles[0],
                LOTile::StartPoint { direction: LODirection::Down }
            );
            assert!(layers[3].tiles[1..].iter().all(|t| *t == LOTile::Empty));
        }
        _ => panic!("room stem missing"),
    }
    // The patched room range is non-empty and lies within the file.
    let r = &back.zone.rooms[0];
    assert!(r.stem_length > 0);
    assert!((r.stem_offset as u64) + (r.stem_length as u64) <= bytes.len() as u64);
}

#[test]
fn fresh_rooms_get_monotone_ids_and_scaled_positions() {
    let mut world = World::new();
    world.room_width = 4;
    world.room_height = 4;
    let a = world.new_room((1, 2, 0));
    let b = world.new_room((3, 1, 5));
    assert_eq!(a.id, 1);
    assert_eq!(b.id, 2);
    assert_eq!(a.position, (4, 8, 0));
    assert_eq!(b.position, (12, 4, 5));
}
