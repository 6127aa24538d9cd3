use voxel_world::chunk::container::loaded::LoadedChunks;
use voxel_world::chunk::container::queue::ChunkUpdateQueue;
use voxel_world::chunk::container::{Chunks, DomainChunk};
use voxel_world::chunk::plugin::{ChunkLoadState, ChunkPlugin, DespawnRequest};
use voxel_world::chunk::{ChunkPos, WorldPos};
use voxel_world::streaming::{arrange_blocks, chunk_loading, GenerationTask};
use voxel_world::terrain::noise::generate_terrain_3d;
use voxel_world::terrain::{DebugTerrainGenerator, Height};

fn sorted(mut ids: Vec<i32>) -> Vec<i32> {
    ids.sort();
    ids
}

fn ids(tasks: &[GenerationTask]) -> Vec<i32> {
    tasks.iter().map(|task| task.id).collect()
}

fn id(x: i32, z: i32) -> i32 {
    Chunks::linearize_domain([x, z])
}

fn flat_blocks(level: i32) -> [u8; 32768] {
    let heights = [Height { floor: level, ceil: level }; 1024];
    arrange_blocks(&generate_terrain_3d(&heights, DebugTerrainGenerator))
}

#[test]
fn a_player_at_the_origin_sees_nine_chunks() {
    let mut chunks = Chunks::new();
    let mut loaded = LoadedChunks::new();
    let mut queue = ChunkUpdateQueue::new();
    let mut state = ChunkLoadState::Render;
    let mut last = None;

    let dispatch = chunk_loading(&mut loaded, &mut last, 0, 0, 1);
    let window = vec![
        id(-1, -1), id(-1, 0), id(-1, 1),
        id(0, -1), id(0, 0), id(0, 1),
        id(1, -1), id(1, 0), id(1, 1),
    ];
    assert_eq!(ids(&dispatch), window);
    assert!(dispatch.iter().all(|task| task.seed <= 5000));
    assert_eq!(last, Some((0, 0)));

    for task in &dispatch {
        queue.queue((task.id, flat_blocks(8)));
    }
    let mut spawns = 0;
    while ChunkPlugin::render_queue_check(&queue) {
        let requests =
            ChunkPlugin::render_blocks(&mut chunks, &mut loaded, &mut queue, &mut state, 1);
        spawns += requests.spawns.len();
        assert!(requests.despawns.is_empty());
        assert_eq!(state, ChunkLoadState::Wait);
    }
    assert_eq!(spawns, 9);
    assert_eq!(sorted(loaded.pull_loaded()), sorted(window));
    assert_eq!(loaded.pull_loaded().len(), 9);
}

#[test]
fn staying_in_the_chunk_asks_for_nothing() {
    let mut loaded = LoadedChunks::new();
    let mut last = None;
    assert_eq!(chunk_loading(&mut loaded, &mut last, 5, 5, 1).len(), 9);
    assert!(chunk_loading(&mut loaded, &mut last, 31, 0, 1).is_empty());
    assert!(chunk_loading(&mut loaded, &mut last, 0, 31, 2).is_empty());
    assert_eq!(last, Some((0, 0)));
    assert_eq!(loaded.pull_loaded().len(), 9);
    assert!(loaded.pull_unload().is_empty());
}

#[test]
fn crossing_a_border_moves_the_window() {
    let mut loaded = LoadedChunks::new();
    let mut last = None;
    chunk_loading(&mut loaded, &mut last, 0, 0, 1);
    let dispatch = chunk_loading(&mut loaded, &mut last, 32, 0, 1);
    assert_eq!(ids(&dispatch), vec![id(2, -1), id(2, 0), id(2, 1)]);
    assert_eq!(last, Some((1, 0)));
    assert_eq!(sorted(loaded.pull_unload()), sorted(vec![id(-1, -1), id(-1, 0), id(-1, 1)]));
    assert_eq!(loaded.pull_loaded().len(), 9);
    assert!(loaded.is_chunk_id_loaded(&id(2, 1)));
    assert!(!loaded.is_chunk_id_loaded(&id(-1, 0)));
}

#[test]
fn crossing_below_zero_moves_the_window_down() {
    let mut loaded = LoadedChunks::new();
    let mut last = Some((0, 0));
    let dispatch = chunk_loading(&mut loaded, &mut last, -1, -1, 0);
    assert_eq!(ids(&dispatch), vec![id(-1, -1)]);
    assert_eq!(last, Some((-1, -1)));
}

#[test]
fn a_radius_of_two_has_twenty_five_chunks() {
    let mut loaded = LoadedChunks::new();
    let mut last = None;
    let dispatch = chunk_loading(&mut loaded, &mut last, 100, -100, 2);
    assert_eq!(dispatch.len(), 25);
    assert_eq!(dispatch[0].id, id(1, -6));
    assert_eq!(dispatch[1].id, id(1, -5));
    assert_eq!(dispatch[5].id, id(2, -6));
    assert_eq!(dispatch[24].id, id(5, -2));
    assert!(dispatch.iter().all(|task| task.seed <= 5000));
    assert_eq!(loaded.pull_loaded().len(), 25);
}

#[test]
fn terrain_is_turned_and_kept_off_the_lower_borders() {
    let mut terrain = vec![0u8; 32768];
    terrain[1 + 32 * 2 + 1024 * 3] = 7;
    terrain[5 + 32 * 5] = 8;
    terrain[32 * 5 + 1024 * 5] = 9;
    terrain[5 + 1024 * 5] = 10;
    terrain[31 + 32 * 31 + 1024 * 30] = 11;
    let blocks = arrange_blocks(&terrain);
    assert_eq!(blocks[1 + 32 * 3 + 1024 * 2], 7);
    assert_eq!(blocks[31 + 32 * 30 + 1024 * 31], 11);
    assert_eq!(blocks.iter().filter(|id| **id != 0).count(), 2);
}

#[test]
fn flat_terrain_fills_the_levels_of_the_chunk() {
    let blocks = flat_blocks(8);
    for level in 0..32usize {
        let expected = if (1..=8).contains(&level) { 1 } else { 0 };
        assert_eq!(blocks[4 + 32 * level + 1024 * 9], expected);
    }
    assert_eq!(blocks[32 * 4 + 1024 * 9], 0);
    assert_eq!(blocks[4 + 32 * 4], 0);
}

#[test]
fn a_tick_puts_generated_blocks_into_the_store() {
    let mut chunks = Chunks::new();
    let mut loaded = LoadedChunks::new();
    let mut queue = ChunkUpdateQueue::new();
    let mut state = ChunkLoadState::Render;
    queue.queue((id(2, -3), flat_blocks(8)));
    queue.queue((id(0, 0), [0u8; 32768]));
    queue.queue((id(4, 4), flat_blocks(3)));

    let requests = ChunkPlugin::render_blocks(&mut chunks, &mut loaded, &mut queue, &mut state, 2);
    assert_eq!(queue.len(), 1);
    assert_eq!(requests.spawns.len(), 2);
    assert_eq!(requests.spawns[0].id, id(2, -3));
    assert_eq!(requests.spawns[0].world_pos, WorldPos { x: 64, z: -96 });
    assert_eq!(requests.spawns[1].world_pos, WorldPos { x: 0, z: 0 });
    assert_eq!(requests.spawns[0].entity, None);
    let faces: Vec<usize> = requests.spawns[0].mesh.quads.iter().map(|q| q.face).collect();
    assert_eq!(faces, vec![0, 1, 2, 4]);
    assert_eq!(requests.spawns[0].mesh.quads[0].quad.minimum, [1, 1, 1]);
    assert_eq!(requests.spawns[0].mesh.quads[3].quad.minimum, [1, 8, 1]);
    assert_eq!(requests.spawns[0].mesh.quads[3].quad.width, 30);
    assert_eq!(requests.spawns[0].mesh.quads[3].quad.height, 30);
    assert_eq!(requests.spawns[0].mesh.indices.len(), 24);
    assert_eq!(requests.spawns[0].mesh.indices[..6], [0, 1, 2, 1, 3, 2]);
    assert_eq!(requests.spawns[0].mesh.indices[18..], [12, 13, 14, 13, 15, 14]);
    assert_eq!(requests.spawns[1].id, id(0, 0));
    assert!(requests.spawns[1].mesh.quads.is_empty());
    assert_eq!(sorted(loaded.pull_loaded()), sorted(vec![id(2, -3), id(0, 0)]));

    let chunk = chunks.get(id(2, -3)).unwrap();
    assert_eq!(chunk.world_pos, ChunkPos { x: 2, y: -3 });
    assert!(!chunk.dirty);
    assert_eq!(chunk.get_block([4, 8, 9]), 1);
    assert_eq!(chunk.mesh.as_ref(), Some(&requests.spawns[0].mesh));
    assert!(chunks.get(id(4, 4)).is_none());
}

#[test]
fn the_last_blocks_for_a_chunk_win() {
    let mut chunks = Chunks::new();
    let mut loaded = LoadedChunks::new();
    let mut queue = ChunkUpdateQueue::new();
    let mut state = ChunkLoadState::Wait;
    chunks.get_domain_at_mut([1, 1]).entity = Some(42);
    queue.queue((id(1, 1), flat_blocks(8)));
    queue.queue((id(1, 1), flat_blocks(3)));
    let requests =
        ChunkPlugin::render_blocks(&mut chunks, &mut loaded, &mut queue, &mut state, 10);
    assert_eq!(requests.spawns.len(), 2);
    assert_eq!(requests.spawns[0].entity, Some(42));
    assert_eq!(requests.spawns[1].entity, Some(42));
    assert_eq!(requests.spawns[0].mesh.quads[0].block, 1);
    assert_eq!(requests.spawns[1].mesh.quads[0].block, 4);
    let chunk = chunks.get(id(1, 1)).unwrap();
    assert_eq!(chunk.get_block([4, 3, 9]), 4);
    assert_eq!(chunk.get_block([4, 8, 9]), 0);
    assert_eq!(loaded.pull_loaded(), vec![id(1, 1)]);
    assert_eq!(state, ChunkLoadState::Wait);
}

#[test]
fn a_tick_asks_to_drop_what_waits() {
    let mut chunks = Chunks::new();
    let mut loaded = LoadedChunks::new();
    let mut queue = ChunkUpdateQueue::new();
    let mut state = ChunkLoadState::Render;
    chunks.get_domain_at_mut([3, 3]).entity = Some(5);
    chunks.get_domain_at_mut([4, 4]);
    loaded.queue_unload(id(3, 3));
    loaded.queue_unload(id(4, 4));
    loaded.queue_unload(id(9, 9));
    let mut requests =
        ChunkPlugin::render_blocks(&mut chunks, &mut loaded, &mut queue, &mut state, 1);
    assert!(requests.spawns.is_empty());
    requests.despawns.sort_by_key(|request| request.id);
    assert_eq!(
        requests.despawns,
        vec![
            DespawnRequest { id: id(3, 3), entity: Some(5) },
            DespawnRequest { id: id(4, 4), entity: None },
            DespawnRequest { id: id(9, 9), entity: None },
        ]
    );
    assert!(chunks.get(id(9, 9)).is_none());
    assert!(loaded.pull_unload().is_empty());
    assert_eq!(state, ChunkLoadState::Wait);
}

#[test]
fn a_chunk_outside_the_window_is_applied_all_the_same() {
    let mut chunks = Chunks::new();
    let mut loaded = LoadedChunks::new();
    let mut queue = ChunkUpdateQueue::new();
    let mut state = ChunkLoadState::Render;
    let mut last = None;
    let dispatch = chunk_loading(&mut loaded, &mut last, 0, 0, 0);
    assert_eq!(ids(&dispatch), vec![id(0, 0)]);
    chunk_loading(&mut loaded, &mut last, 320, 0, 0);
    queue.queue((id(0, 0), flat_blocks(8)));
    let requests = ChunkPlugin::render_blocks(&mut chunks, &mut loaded, &mut queue, &mut state, 4);
    assert_eq!(requests.spawns.len(), 1);
    assert_eq!(requests.despawns.len(), 1);
    assert_eq!(requests.despawns[0].id, id(0, 0));
    assert!(loaded.is_chunk_id_loaded(&id(0, 0)));
    chunk_loading(&mut loaded, &mut last, 640, 0, 0);
    assert_eq!(sorted(loaded.pull_unload()), sorted(vec![id(0, 0), id(10, 0)]));
}

#[test]
fn seeds_are_drawn_anew_for_each_task() {
    let mut loaded = LoadedChunks::new();
    let mut last = None;
    let dispatch = chunk_loading(&mut loaded, &mut last, 0, 0, 8);
    assert_eq!(dispatch.len(), 17 * 17);
    assert!(dispatch.iter().all(|task| task.seed <= 5000));
    let first = dispatch[0].seed;
    assert!(dispatch.iter().any(|task| task.seed != first));
}

#[test]
fn what_waited_goes_on_waiting_when_the_window_moves() {
    let mut loaded = LoadedChunks::new();
    let mut last = None;
    chunk_loading(&mut loaded, &mut last, 0, 0, 0);
    loaded.queue_unload(id(7, 7));
    chunk_loading(&mut loaded, &mut last, 32, 0, 0);
    chunk_loading(&mut loaded, &mut last, 64, 0, 0);
    assert_eq!(
        sorted(loaded.pull_unload()),
        sorted(vec![id(0, 0), id(1, 0), id(7, 7)])
    );
    assert_eq!(loaded.pull_loaded(), vec![id(2, 0)]);
}

#[test]
fn a_waiting_id_that_is_shown_again_still_waits() {
    let mut loaded = LoadedChunks::new();
    let mut last = None;
    chunk_loading(&mut loaded, &mut last, 0, 0, 0);
    chunk_loading(&mut loaded, &mut last, 32, 0, 0);
    chunk_loading(&mut loaded, &mut last, 0, 0, 0);
    assert_eq!(sorted(loaded.pull_unload()), sorted(vec![id(0, 0), id(1, 0)]));
    assert!(loaded.is_chunk_id_loaded(&id(0, 0)));
}

#[test]
fn visuals_stand_one_chunk_side_apart() {
    let mut chunks = Chunks::new();
    let mut loaded = LoadedChunks::new();
    let near = ChunkPlugin::apply_update(&mut chunks, &mut loaded, id(-1, 5), [0u8; 32768]);
    let far = ChunkPlugin::apply_update(&mut chunks, &mut loaded, id(0, 6), [0u8; 32768]);
    assert_eq!(near.world_pos, WorldPos { x: -32, z: 160 });
    assert_eq!(far.world_pos, WorldPos { x: 0, z: 192 });
    assert_eq!(ChunkPos { x: i32::MAX, y: i32::MIN }.origin(), WorldPos {
        x: 32 * (i32::MAX as i64),
        z: 32 * (i32::MIN as i64),
    });
}
