use chicken_core::combat::Health;
use chicken_core::message::MessageColor;
use chicken_core::position::{tile_coords, tile_index, NUM_TILES, NUM_TILES_X, NUM_TILES_Y};
use chicken_core::tile_type::TileType;

#[test]
fn tile_index_is_row_major() {
    assert_eq!(tile_index(0, 0), 0);
    assert_eq!(tile_index(31, 0), 31);
    assert_eq!(tile_index(0, 1), 32);
    assert_eq!(tile_index(27, 19), 635);
    assert_eq!(NUM_TILES, NUM_TILES_X * NUM_TILES_Y);
}

#[test]
fn tile_coords_inverts_tile_index() {
    for idx in [0usize, 31, 32, 635, 639] {
        let pos = tile_coords(idx);
        assert_eq!(tile_index(pos.x, pos.y), idx);
    }
}

#[test]
fn walkability_matches_tile_kind() {
    assert!(TileType::Grass.can_player_enter());
    assert!(TileType::Dirt.can_player_enter());
    assert!(TileType::Road.can_player_enter());
    assert!(TileType::CaveFloor.can_player_enter());
    assert!(TileType::Grain.can_player_enter());
    assert!(!TileType::FenceHorizontal.can_player_enter());
    assert!(!TileType::FenceVertical.can_player_enter());
    assert!(!TileType::Bush.can_player_enter());
    assert!(!TileType::HayCart.can_player_enter());
    assert!(!TileType::Barn.can_player_enter());
    assert!(!TileType::Water.can_player_enter());
    assert!(!TileType::Fire.can_player_enter());
    assert!(!TileType::Anvil.can_player_enter());
    assert!(!TileType::CaveMouth.can_player_enter());
}

#[test]
fn sprite_indices_match_the_atlas() {
    assert_eq!(TileType::Grass.index(), 0);
    assert_eq!(TileType::Dirt.index(), 1);
    assert_eq!(TileType::FenceHorizontal.index(), 2);
    assert_eq!(TileType::Flower.index(), 5);
    assert_eq!(TileType::Cauldron.index(), 7);
    assert_eq!(TileType::CaveFloor.index(), 9);
    assert_eq!(TileType::GoldEgg.index(), 13);
    assert_eq!(TileType::CobbleBR.index(), 53);
    assert_eq!(TileType::WaterV6.index(), 42);
}

#[test]
fn invisible_tiles_are_not_rendered() {
    assert!(!TileType::Empty.should_render());
    assert!(!TileType::ReferTo(5).should_render());
    assert!(TileType::Grass.should_render());
    assert!(TileType::Water.should_render());
}

#[test]
fn big_features_report_their_footprints() {
    let (w, h, sprites) = TileType::HayCart.extra_big().unwrap();
    assert_eq!((w, h), (3, 2));
    assert_eq!(sprites, vec![16, 17, 18, 32, 33, 34]);
    let (w, h, sprites) = TileType::Barn.extra_big().unwrap();
    assert_eq!((w, h), (2, 3));
    assert_eq!(sprites, vec![48, 49, 64, 65, 80, 81]);
    let (w, h, _) = TileType::LeftButte.extra_big().unwrap();
    assert_eq!((w, h), (2, 7));
    let (w, h, sprites) = TileType::CaveMouth.extra_big().unwrap();
    assert_eq!((w, h), (6, 1));
    assert_eq!(sprites.len(), 6);
    assert!(TileType::Grass.extra_big().is_none());
}

#[test]
fn grain_interaction_heals_to_full() {
    let mut health = Health { current: 3, max: 10 };
    let msgs = TileType::Grain.interact(&mut health);
    assert_eq!(health.current, 10);
    assert_eq!(msgs.len(), 1);
    assert_eq!(msgs[0].text, "Yummy, grain!");
    assert!(matches!(msgs[0].color, MessageColor::Green));
}

#[test]
fn fence_interaction_only_talks() {
    let mut health = Health { current: 3, max: 10 };
    let msgs = TileType::FenceHorizontal.interact(&mut health);
    assert_eq!(health.current, 3);
    assert_eq!(msgs.len(), 1);
    assert_eq!(msgs[0].text, "There's a fence here. Maybe you can Jump over it?");
}

#[test]
fn cauldron_interaction_tells_the_origin_story() {
    let mut health = Health { current: 5, max: 5 };
    let msgs = TileType::Cauldron.interact(&mut health);
    assert_eq!(msgs.len(), 2);
    assert_eq!(msgs[1].text, "Farmer Tom's Magic Miracle Grow");
    assert!(matches!(msgs[0].color, MessageColor::Yellow));
}

#[test]
fn plain_tiles_have_no_interaction() {
    let mut health = Health { current: 2, max: 9 };
    let msgs = TileType::Grass.interact(&mut health);
    assert!(msgs.is_empty());
    assert_eq!(health.current, 2);
}
