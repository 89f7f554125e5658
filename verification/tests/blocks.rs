use minecraft_rust::blocks::{blank_texture, Block, BlockData, BlockRegistry, FaceDirection};

fn defaults() -> BlockRegistry {
    let mut registry = BlockRegistry::new();
    Block::register_defaults(&mut registry);
    registry
}

#[test]
fn air_is_block_zero() {
    assert_eq!(Block::air(), Block(0));
}

#[test]
fn register_returns_increasing_ids() {
    let mut registry = BlockRegistry::new();
    let a = Block::register(&mut registry, String::from("air"), BlockData::new(false, vec![]));
    let b = Block::register(&mut registry, String::from("stone"), BlockData::new(true, vec![]));
    let c = Block::register(&mut registry, String::from("sand"), BlockData::new(true, vec![]));
    assert_eq!((a, b, c), (Block(0), Block(1), Block(2)));
    assert_eq!(registry.len(), 3);
}

#[test]
fn defaults_are_air_grass_dirt() {
    let registry = defaults();
    assert_eq!(registry.len(), 3);
    assert_eq!(Block::get(&registry, "air"), Some(Block(0)));
    assert_eq!(Block::get(&registry, "grass"), Some(Block(1)));
    assert_eq!(Block::get(&registry, "dirt"), Some(Block(2)));
    assert_eq!(Block(0).is_solid(&registry), Some(false));
    assert_eq!(Block(1).is_solid(&registry), Some(true));
    assert_eq!(Block(2).is_solid(&registry), Some(true));
}

#[test]
fn unknown_name_is_not_found() {
    let registry = defaults();
    assert_eq!(Block::get(&registry, "stone"), None);
    assert_eq!(Block::get(&registry, ""), None);
    assert_eq!(Block::get(&BlockRegistry::new(), "air"), None);
}

#[test]
fn latest_registration_of_a_name_wins() {
    let mut registry = defaults();
    let again = Block::register(&mut registry, String::from("grass"), BlockData::new(true, vec![]));
    assert_eq!(again, Block(3));
    assert_eq!(Block::get(&registry, "grass"), Some(Block(3)));
    assert_eq!(Block::get(&registry, "dirt"), Some(Block(2)));
}

#[test]
fn unregistered_block_has_no_properties() {
    let registry = defaults();
    assert_eq!(Block(3).is_solid(&registry), None);
    assert_eq!(Block(3).get_texture(&registry, FaceDirection::Up), None);
    assert_eq!(Block(u32::MAX).is_solid(&registry), None);
    assert!(!registry.solid(3));
    assert_eq!(registry.face_texture(3, FaceDirection::Up), 0);
}

#[test]
fn textures_are_blank_before_assignment() {
    let registry = defaults();
    for face in [
        FaceDirection::Up,
        FaceDirection::Down,
        FaceDirection::Front,
        FaceDirection::Back,
        FaceDirection::Left,
        FaceDirection::Right,
    ] {
        assert_eq!(Block(1).get_texture(&registry, face), Some(0));
    }
}

#[test]
fn assign_textures_gives_slots_in_registration_order() {
    let mut registry = defaults();
    let files = registry.assign_textures();
    assert_eq!(
        files,
        vec![
            String::from("assets/textures/PNG/Tiles/grass_top.png"),
            String::from("assets/textures/PNG/Tiles/dirt_grass.png"),
            String::from("assets/textures/PNG/Tiles/dirt.png"),
            String::from("assets/textures/PNG/Tiles/dirt.png"),
        ]
    );
    let grass = Block(1);
    assert_eq!(grass.get_texture(&registry, FaceDirection::Up), Some(1));
    assert_eq!(grass.get_texture(&registry, FaceDirection::Front), Some(2));
    assert_eq!(grass.get_texture(&registry, FaceDirection::Back), Some(2));
    assert_eq!(grass.get_texture(&registry, FaceDirection::Left), Some(2));
    assert_eq!(grass.get_texture(&registry, FaceDirection::Right), Some(2));
    assert_eq!(grass.get_texture(&registry, FaceDirection::Down), Some(3));
    let dirt = Block(2);
    for face in [
        FaceDirection::Up,
        FaceDirection::Down,
        FaceDirection::Front,
        FaceDirection::Back,
        FaceDirection::Left,
        FaceDirection::Right,
    ] {
        assert_eq!(dirt.get_texture(&registry, face), Some(4));
        assert_eq!(Block(0).get_texture(&registry, face), Some(0));
    }
}

#[test]
fn last_asset_naming_a_face_wins() {
    let mut registry = BlockRegistry::new();
    Block::register(&mut registry, String::from("air"), BlockData::new(false, vec![]));
    Block::register(
        &mut registry,
        String::from("log"),
        BlockData::new(
            true,
            vec![
                (String::from("bark.png"), vec![FaceDirection::Up, FaceDirection::Left]),
                (String::from("rings.png"), vec![FaceDirection::Up]),
            ],
        ),
    );
    let files = registry.assign_textures();
    assert_eq!(files, vec![String::from("bark.png"), String::from("rings.png")]);
    assert_eq!(Block(1).get_texture(&registry, FaceDirection::Up), Some(2));
    assert_eq!(Block(1).get_texture(&registry, FaceDirection::Left), Some(1));
    assert_eq!(Block(1).get_texture(&registry, FaceDirection::Down), Some(0));
}

#[test]
fn assigning_textures_twice_gives_the_same_slots() {
    let mut registry = defaults();
    let first = registry.assign_textures();
    let second = registry.assign_textures();
    assert_eq!(first, second);
    assert_eq!(Block(1).get_texture(&registry, FaceDirection::Down), Some(3));
}

#[test]
fn face_index_round_trip() {
    let faces = [
        FaceDirection::Up,
        FaceDirection::Down,
        FaceDirection::Front,
        FaceDirection::Back,
        FaceDirection::Left,
        FaceDirection::Right,
    ];
    for (i, face) in faces.iter().enumerate() {
        assert_eq!(face.index(), i);
        assert_eq!(FaceDirection::from_index(i), Some(*face));
    }
    assert_eq!(FaceDirection::from_index(6), None);
}

#[test]
fn block_data_reports_what_it_was_made_with() {
    let data = BlockData::new(true, vec![(String::from("a.png"), vec![FaceDirection::Up])]);
    assert!(data.is_solid());
    assert_eq!(data.texture(FaceDirection::Up), 0);
    assert!(!BlockData::new(false, vec![]).is_solid());
}

#[test]
fn atlas_needs_a_blank_slot_and_one_for_each_asset() {
    assert_eq!(BlockRegistry::new().atlas_slots(), Some(1));
    assert_eq!(defaults().atlas_slots(), Some(5));
}

#[test]
fn blank_texture_is_all_zero() {
    assert!(blank_texture(0, 0).is_empty());
    assert!(blank_texture(7, 0).is_empty());
    let pixels = blank_texture(3, 5);
    assert_eq!(pixels.len(), 60);
    assert!(pixels.iter().all(|byte| *byte == 0));
}
