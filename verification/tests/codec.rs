use leafs_odyssey_data::data::{LOLayer, LORoom, LORoomInfo, LOStem, LOStemContent, LOWorld, LOZone};
use leafs_odyssey_data::decode::decode;
use leafs_odyssey_data::encode::encode;
use leafs_odyssey_data::guid::{parse_single_guid, random_guid, random_guid_segment};
use leafs_odyssey_data::tiles::{LODirection, LOMusic, LOTile};

fn sample_world() -> LOWorld {
    let layer_floor = LOLayer {
        width: 2,
        height: 2,
        tiles: vec![LOTile::Grass, LOTile::Wall, LOTile::Water, LOTile::Pit],
    };
    let empty_layer = LOLayer {
        width: 2,
        height: 2,
        tiles: vec![LOTile::Empty, LOTile::Empty, LOTile::Empty, LOTile::Empty],
    };
    let mut l4 = empty_layer.clone();
    l4.tiles[0] = LOTile::StartPoint { direction: LODirection::Down };
    let descriptor = LOStem::from_content(LOStemContent::TileZoneMap {
        name: b"testworld".to_vec(),
        room_info: vec![LORoomInfo {
            id: 1,
            x_position: 0,
            y_position: 0,
            width: 2,
            height: 2,
            z_position: 0,
        }],
        description: b"a small world".to_vec(),
        author: b"someone".to_vec(),
        guid_world: 0x444DEC65,
        guid_author1: 0x65D50024,
        guid_author2: 0xC5A59B05,
        world_revision: 1,
        unknown4: 0,
    });
    let room = LOStem::from_content(LOStemContent::TileMapEdit {
        id: 1,
        name: b"room one".to_vec(),
        width: 2,
        height: 2,
        layers: vec![
            layer_floor,
            empty_layer.clone(),
            empty_layer.clone(),
            l4,
            empty_layer,
        ],
        music: LOMusic::Aqua,
        revision: 1,
    });
    LOWorld::new(
        LOZone {
            stem_offset: 0,
            stem_length: 0,
            rooms: vec![LORoom { stem_offset: 0, stem_length: 0 }],
        },
        vec![descriptor, room],
    )
}

#[test]
fn encode_decode_round_trip() {
    let mut world = sample_world();
    let bytes = encode(&mut world).expect("encodable world");
    let back = decode(&bytes).expect("own encoding decodes");
    assert_eq!(back, world);
}

#[test]
fn patched_offsets_are_in_range_and_ordered() {
    let mut world = sample_world();
    let bytes = encode(&mut world).expect("encodable world");
    let total = bytes.len() as u64;
    let z_off = world.zone.stem_offset as u64;
    let z_len = world.zone.stem_length as u64;
    assert!(z_off + z_len <= total);
    let mut prev_end = z_off + z_len;
    for room in &world.zone.rooms {
        let off = room.stem_offset as u64;
        let len = room.stem_length as u64;
        assert_eq!(off, prev_end);
        assert!(off + len <= total);
        prev_end = off + len;
    }
    assert_eq!(prev_end, total);
}

#[test]
fn decode_rejects_bad_magic() {
    assert!(decode(&[0u8; 64]).is_err());
    assert!(decode(&[]).is_err());
}

#[test]
fn decode_rejects_truncated_stream() {
    let mut world = sample_world();
    let bytes = encode(&mut world).expect("encodable world");
    assert!(decode(&bytes[..bytes.len() - 3]).is_err());
}

#[test]
fn decode_rejects_unknown_tile_tag() {
    let mut world = sample_world();
    let bytes = encode(&mut world).expect("encodable world");
    // The last eight bytes are the room's music and revision; the four
    // before belong to the final tile of layer five, an empty tile.
    let mut corrupt = bytes.clone();
    let tag_pos = corrupt.len() - 12;
    assert_eq!(&corrupt[tag_pos..tag_pos + 4], &[0, 0, 0, 0]);
    corrupt[tag_pos] = 0x63;
    assert!(decode(&corrupt).is_err());
}

#[test]
fn taxonomy_classifies_walls_and_trapdoors() {
    assert!(LOTile::Wall.is_wall());
    assert!(!LOTile::Wall.is_floor());
    assert!(LOTile::TrapdoorOverWater.is_trapdoor());
    assert!(LOTile::TrapdoorOverWater.is_puzzle_obstacle());
    assert!(LOTile::CrumblyWall.is_crumbly_wall());
    assert!(LOTile::CrumblyWall.is_puzzle_layer3());
    assert!(LOTile::Pillar.is_obstacle());
    assert!(!LOTile::Pillar.is_puzzle_obstacle());
    let start = LOTile::StartPoint { direction: LODirection::Up };
    assert!(start.is_puzzle_layer4());
}

#[test]
fn trapdoor_floors_are_canonical_first() {
    let floors = LOTile::TrapdoorOverPit.get_trapdoor_floors();
    assert_eq!(floors[0], LOTile::Pit);
    assert_eq!(floors.len(), 4);
    let floors = LOTile::TrapdoorOverWater.get_trapdoor_floors();
    assert_eq!(floors, vec![LOTile::Water]);
}

#[test]
fn guid_segments_parse_exactly() {
    assert_eq!(parse_single_guid("444DEC65"), Ok(0x444DEC65));
    assert_eq!(parse_single_guid("0"), Ok(0));
    assert_eq!(parse_single_guid("ffffffff"), Ok(0xFFFFFFFF));
    assert!(parse_single_guid("").is_err());
    assert!(parse_single_guid("xyz").is_err());
    assert!(parse_single_guid("100000000").is_err());
}

#[test]
fn random_guids_have_the_asked_shape() {
    let seg = random_guid_segment();
    assert_eq!(seg.len(), 8);
    assert!(seg.chars().all(|c| c.is_ascii_hexdigit()));
    let two = random_guid(2);
    assert_eq!(two.len(), 17);
    assert_eq!(two.matches('-').count(), 1);
}
