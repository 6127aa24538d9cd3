use voxel_world::material::{
    BlockKind, Grass, Material, MaterialPlugin, Materials, Sand, Stone, Void, Water,
};

#[test]
fn block_kinds_have_their_ids() {
    assert_eq!(Void::id(), 0);
    assert_eq!(Grass::id(), 1);
    assert_eq!(Stone::id(), 2);
    assert_eq!(Water::id(), 3);
    assert_eq!(Sand::id(), 4);
}

#[test]
fn no_material_is_known_at_first() {
    let materials = Materials::new();
    assert!(materials.get_from_id(&0).is_none());
    assert!(materials.get::<Grass>().is_none());
}

#[test]
fn the_five_materials_are_known_after_init() {
    let mut materials = Materials::new();
    MaterialPlugin::init_materials(&mut materials);
    for id in 0..5u8 {
        assert_eq!(materials.get_from_id(&id), Some(&Material {}));
    }
    for id in 5..=255u8 {
        assert!(materials.get_from_id(&id).is_none());
    }
    assert!(materials.get::<Void>().is_some());
    assert!(materials.get::<Grass>().is_some());
    assert!(materials.get::<Stone>().is_some());
    assert!(materials.get::<Water>().is_some());
    assert!(materials.get::<Sand>().is_some());
}
