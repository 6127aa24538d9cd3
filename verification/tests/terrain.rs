use noise::utils::{NoiseMapBuilder, PlaneMapBuilder};
use noise::{Fbm, MultiFractal, Perlin};
use voxel_world::terrain::noise::generate_terrain_3d;
use voxel_world::terrain::{DebugTerrainGenerator, Height, TerrainGenerator};

fn level(ceil: i32) -> Height {
    Height { floor: ceil, ceil }
}

fn heights_from_noise(seed: u32) -> [Height; 1024] {
    let fbm = Fbm::<Perlin>::new(seed)
        .set_octaves(1)
        .set_persistence(3.512)
        .set_lacunarity(3.351);
    let map = PlaneMapBuilder::<&Fbm<Perlin>, 4>::new(&fbm).set_size(32, 32).build();
    let mut heights = [Height { floor: 0, ceil: 0 }; 1024];
    for y in 0..32 {
        for x in 0..32 {
            let height = (map[(x, y)] as f32) * 32.0;
            heights[x + 32 * y] = Height { floor: height.floor() as i32, ceil: height.ceil() as i32 };
        }
    }
    heights
}

#[test]
fn bands_choose_the_block() {
    let terrain = DebugTerrainGenerator;
    assert_eq!(terrain.get_block_type(level(-1)), 0);
    assert_eq!(terrain.get_block_type(level(0)), 3);
    assert_eq!(terrain.get_block_type(level(1)), 3);
    assert_eq!(terrain.get_block_type(level(2)), 4);
    assert_eq!(terrain.get_block_type(level(3)), 4);
    assert_eq!(terrain.get_block_type(level(4)), 3);
    assert_eq!(terrain.get_block_type(level(5)), 2);
    assert_eq!(terrain.get_block_type(level(6)), 2);
    assert_eq!(terrain.get_block_type(level(7)), 1);
    assert_eq!(terrain.get_block_type(level(39)), 1);
    assert_eq!(terrain.get_block_type(level(40)), 0);
    assert_eq!(terrain.get_block_type(level(i32::MAX)), 0);
    assert_eq!(terrain.get_block_type(level(i32::MIN)), 0);
}

#[test]
fn the_band_goes_by_the_ceiling() {
    let terrain = DebugTerrainGenerator;
    assert_eq!(terrain.get_block_type(Height { floor: 6, ceil: 7 }), 1);
    assert_eq!(terrain.get_block_type(Height { floor: 1, ceil: 2 }), 4);
}

#[test]
fn columns_are_filled_up_to_the_surface() {
    let mut heights = [Height { floor: -1, ceil: 0 }; 1024];
    heights[3 + 32 * 4] = Height { floor: 5, ceil: 6 };
    heights[0] = Height { floor: 0, ceil: 0 };
    heights[1023] = Height { floor: 40, ceil: 41 };
    heights[5] = Height { floor: 31, ceil: 31 };
    let ids = generate_terrain_3d(&heights, DebugTerrainGenerator);
    assert_eq!(ids.len(), 32768);
    for z in 0..32 {
        let expected = if z <= 5 { 2 } else { 0 };
        assert_eq!(ids[3 + 32 * 4 + 1024 * z], expected);
        assert_eq!(ids[5 + 1024 * z], 1);
        assert_eq!(ids[1023 + 1024 * z], 0);
        assert_eq!(ids[1024 * z], if z == 0 { 3 } else { 0 });
        assert_eq!(ids[1 + 1024 * z], 0);
    }
    assert_eq!(ids.iter().filter(|id| **id != 0).count(), 6 + 32 + 1);
}

#[test]
fn the_same_seed_gives_the_same_terrain() {
    let first = generate_terrain_3d(&heights_from_noise(42), DebugTerrainGenerator);
    let second = generate_terrain_3d(&heights_from_noise(42), DebugTerrainGenerator);
    assert_eq!(first.len(), 32768);
    assert_eq!(first, second);
}
