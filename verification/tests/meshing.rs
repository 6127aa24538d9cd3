use voxel_world::chunk::meshing::{ChunkMesh, MeshQuad, Quad};
use voxel_world::chunk::Chunk;

fn solid_cube(from: u32, to: u32, id: u8) -> Chunk {
    let mut chunk = Chunk::new(0, 0);
    for x in from..=to {
        for y in from..=to {
            for z in from..=to {
                chunk.set_block([x, y, z], id);
            }
        }
    }
    chunk
}

#[test]
fn an_empty_chunk_has_no_quads_and_no_indices() {
    let mesh = Chunk::new(0, 0).mesh();
    assert!(mesh.quads.is_empty());
    assert!(mesh.indices.is_empty());
}

#[test]
fn a_solid_cube_of_two_has_one_quad_on_each_face() {
    let mesh = solid_cube(1, 2, 1).mesh();
    assert_eq!(mesh.quads.len(), 6);
    assert_eq!(mesh.indices.len(), 36);
    for (face, placed) in mesh.quads.iter().enumerate() {
        assert_eq!(placed.face, face);
        assert_eq!(placed.quad.width, 2);
        assert_eq!(placed.quad.height, 2);
        assert_eq!(placed.block, 1);
    }
    assert_eq!(mesh.quads[0].quad.minimum, [1, 1, 1]);
    assert_eq!(mesh.quads[1].quad.minimum, [1, 1, 1]);
    assert_eq!(mesh.quads[2].quad.minimum, [1, 1, 1]);
    assert_eq!(mesh.quads[3].quad.minimum, [2, 1, 1]);
    assert_eq!(mesh.quads[4].quad.minimum, [1, 2, 1]);
    assert_eq!(mesh.quads[5].quad.minimum, [1, 1, 2]);
}

#[test]
fn every_quad_owns_six_indices_wound_by_its_face() {
    let mesh = solid_cube(1, 2, 1).mesh();
    let expected: Vec<u32> = vec![
        0, 1, 2, 1, 3, 2, // face 0
        4, 6, 5, 5, 6, 7, // face 1
        8, 10, 9, 9, 10, 11, // face 2
        12, 14, 13, 13, 14, 15, // face 3
        16, 17, 18, 17, 19, 18, // face 4
        20, 21, 22, 21, 23, 22, // face 5
    ];
    assert_eq!(mesh.indices, expected);
}

#[test]
fn a_single_block_has_six_unit_quads() {
    let mut chunk = Chunk::new(0, 0);
    chunk.set_block([5, 6, 7], 3);
    let mesh = chunk.mesh();
    assert_eq!(mesh.quads.len(), 6);
    for placed in &mesh.quads {
        assert_eq!(placed.quad, Quad { minimum: [5, 6, 7], width: 1, height: 1 });
        assert_eq!(placed.block, 3);
    }
}

#[test]
fn blocks_of_different_ids_do_not_merge() {
    let mut chunk = Chunk::new(0, 0);
    chunk.set_block([5, 5, 5], 1);
    chunk.set_block([6, 5, 5], 2);
    let mesh = chunk.mesh();
    assert_eq!(mesh.quads.len(), 10);
    assert_eq!(mesh.indices.len(), 60);
    assert_eq!(mesh.quads.iter().filter(|placed| placed.block == 1).count(), 5);
    assert_eq!(mesh.quads.iter().filter(|placed| placed.block == 2).count(), 5);
    assert!(mesh.quads.iter().all(|placed| placed.quad.width == 1 && placed.quad.height == 1));
}

#[test]
fn blocks_of_one_id_merge_into_one_quad() {
    let mut chunk = Chunk::new(0, 0);
    chunk.set_block([5, 5, 5], 1);
    chunk.set_block([6, 5, 5], 1);
    let mesh = chunk.mesh();
    assert_eq!(mesh.quads.len(), 6);
    let areas: Vec<u32> = mesh.quads.iter().map(|p| p.quad.width * p.quad.height).collect();
    assert_eq!(areas, vec![1, 2, 2, 1, 2, 2]);
}

#[test]
fn blocks_on_the_border_give_no_faces() {
    let mut chunk = Chunk::new(0, 0);
    chunk.set_block([0, 5, 5], 1);
    chunk.set_block([31, 5, 5], 1);
    chunk.set_block([5, 0, 5], 1);
    chunk.set_block([5, 5, 31], 1);
    let mesh = chunk.mesh();
    assert!(mesh.quads.is_empty());
    assert!(mesh.indices.is_empty());
}

#[test]
fn a_border_block_hides_the_face_next_to_it() {
    let mut chunk = Chunk::new(0, 0);
    chunk.set_block([1, 5, 5], 1);
    chunk.set_block([0, 5, 5], 1);
    let mesh = chunk.mesh();
    assert_eq!(mesh.quads.len(), 5);
    assert!(mesh.quads.iter().all(|placed| placed.face != 0));
}

#[test]
fn a_full_chunk_has_no_faces() {
    let mesh = solid_cube(0, 31, 2).mesh();
    assert!(mesh.quads.is_empty());
}

#[test]
fn meshing_twice_gives_the_same_mesh() {
    let chunk = solid_cube(3, 9, 4);
    assert_eq!(chunk.mesh(), chunk.mesh());
}

#[test]
fn quads_are_laid_out_face_after_face() {
    let chunk = solid_cube(1, 1, 9);
    let groups = vec![
        vec![Quad { minimum: [1, 1, 1], width: 1, height: 1 }],
        vec![],
        vec![
            Quad { minimum: [2, 2, 2], width: 3, height: 4 },
            Quad { minimum: [1, 1, 1], width: 1, height: 2 },
        ],
        vec![],
        vec![],
        vec![Quad { minimum: [30, 30, 30], width: 1, height: 1 }],
    ];
    let mesh = chunk.mesh_from_quads(&groups);
    let expected = ChunkMesh {
        quads: vec![
            MeshQuad { face: 0, quad: groups[0][0], block: 9 },
            MeshQuad { face: 2, quad: groups[2][0], block: 0 },
            MeshQuad { face: 2, quad: groups[2][1], block: 9 },
            MeshQuad { face: 5, quad: groups[5][0], block: 0 },
        ],
        indices: vec![
            0, 1, 2, 1, 3, 2, // face 0
            4, 6, 5, 5, 6, 7, // face 2
            8, 10, 9, 9, 10, 11, // face 2
            12, 13, 14, 13, 15, 14, // face 5
        ],
    };
    assert_eq!(mesh, expected);
}

#[test]
fn the_mesh_is_kept_until_a_block_changes() {
    let mut chunk = solid_cube(1, 2, 1);
    assert!(chunk.dirty);
    assert_eq!(chunk.get_mesh().quads.len(), 6);
    assert!(!chunk.dirty);
    assert_eq!(chunk.mesh.as_ref().map(|mesh| mesh.quads.len()), Some(6));

    chunk.blocks[1 + 32 + 1024] = 0;
    assert_eq!(chunk.get_mesh().quads.len(), 6);

    chunk.set_block([1, 1, 1], 0);
    assert!(chunk.dirty);
    assert!(chunk.get_mesh().quads.len() > 6);
    assert!(!chunk.dirty);
}

#[test]
fn a_clean_chunk_without_a_mesh_gets_one() {
    let mut chunk = solid_cube(1, 2, 1);
    chunk.dirty = false;
    assert_eq!(chunk.get_mesh().indices.len(), 36);
    assert!(chunk.mesh.is_some());
}

#[test]
fn every_quad_starts_at_a_set_block_that_faces_an_unset_one() {
    let mut chunk = Chunk::new(0, 0);
    let mut state: u32 = 12345;
    for index in 0..32768 {
        state = state.wrapping_mul(1664525).wrapping_add(1013904223);
        chunk.set_block_domain(index, ((state >> 24) % 4) as u8);
    }
    let mesh = chunk.mesh();
    assert!(!mesh.quads.is_empty());
    let steps: [i32; 6] = [-1, -32, -1024, 1, 32, 1024];
    for placed in &mesh.quads {
        let [x, y, z] = placed.quad.minimum;
        assert!((1..=30).contains(&x) && (1..=30).contains(&y) && (1..=30).contains(&z));
        let at = (x + 32 * y + 1024 * z) as i32;
        assert_ne!(placed.block, 0);
        assert_eq!(chunk.get_block_domain(at as usize), placed.block);
        assert_eq!(chunk.get_block_domain((at + steps[placed.face]) as usize), 0);
        assert!(placed.quad.width >= 1 && placed.quad.height >= 1);
    }
    let per_face = mesh.quads.iter().filter(|placed| placed.face == 0).count();
    assert!(per_face <= 32768);
    assert_eq!(mesh.indices.len(), 6 * mesh.quads.len());
}
