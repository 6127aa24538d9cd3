//! From a chunk's blocks to the quads and triangle indices of its surface.

use vstd::prelude::*;

use crate::chunk::shape::{block_index, delinearize, in_chunk, lemma_index_in_chunk};
use crate::chunk::voxel::Voxel;
use crate::chunk::{Chunk, ChunkShape};

verus! {

/// A rectangle of merged block faces: its lowest voxel and its extent along the
/// two axes of its face.
#[derive(Clone, Copy, Debug, PartialEq, Eq)]
pub struct Quad {
    pub minimum: [u32; 3],
    pub width: u32,
    pub height: u32,
}

/// A quad on one of the six faces of the cube, with the id of the block that
/// it shows.
#[derive(Clone, Copy, Debug, PartialEq, Eq)]
pub struct MeshQuad {
    /// Index of the face: 0, 1, 2 look down the x, y and z axis, 3, 4, 5 up.
    pub face: usize,
    pub quad: Quad,
    pub block: u8,
}

/// The surface of a chunk: its quads, four vertices each, and six vertex
/// indices for each quad, which draw it as two triangles.
#[derive(Debug, PartialEq, Eq)]
pub struct ChunkMesh {
    pub quads: Vec<MeshQuad>,
    pub indices: Vec<u32>,
}

/// A mesh as sequences.
pub struct ChunkMeshView {
    pub quads: Seq<MeshQuad>,
    pub indices: Seq<u32>,
}

impl View for ChunkMesh {
    type V = ChunkMeshView;

    open spec fn view(&self) -> ChunkMeshView {
        ChunkMeshView { quads: self.quads@, indices: self.indices@ }
    }
}

impl Clone for ChunkMesh {
    fn clone(&self) -> (copy: ChunkMesh)
        ensures
            copy@ == self@,
    {
        let copy = ChunkMesh { quads: self.quads.clone(), indices: self.indices.clone() };
        assert(copy.quads@ =~= self.quads@);
        assert(copy.indices@ =~= self.indices@);
        copy
    }
}

/// The quads that greedy meshing builds from the voxels of a chunk, one
/// group for each face of the cube.
pub uninterp spec fn greedy_quads_of(voxels: Seq<Voxel>) -> Seq<Seq<Quad>>;

/// What every run of the mesher on a chunk holds to: six groups, in each at
/// most one quad for each of the 32768 voxels, and every quad starting at a
/// voxel of the chunk.
pub open spec fn is_mesher_output(groups: Seq<Seq<Quad>>) -> bool {
    &&& groups.len() == 6
    &&& forall|f: int| 0 <= f < 6 ==> (#[trigger] groups[f]).len() <= 32768
    &&& forall|f: int, k: int|
        0 <= f < 6 && 0 <= k < groups[f].len() ==> starts_in_chunk(#[trigger] groups[f][k])
}

/// True of a quad whose lowest voxel is a voxel of the chunk.
pub open spec fn starts_in_chunk(quad: Quad) -> bool {
    in_chunk(quad.minimum[0] as int, quad.minimum[1] as int, quad.minimum[2] as int)
}

/// The step in the block array from a voxel to its neighbour across the face
/// `face`.
pub open spec fn face_step(face: int) -> int {
    if face == 0 {
        -1
    } else if face == 1 {
        -32
    } else if face == 2 {
        -1024
    } else if face == 3 {
        1
    } else if face == 4 {
        32
    } else {
        1024
    }
}

/// True of a quad of the face `face` that starts off the chunk's border, at a
/// set voxel whose neighbour across the face is unset.
pub open spec fn shows_face(quad: Quad, face: int, voxels: Seq<Voxel>) -> bool {
    let at = block_index(
        quad.minimum[0] as int,
        quad.minimum[1] as int,
        quad.minimum[2] as int,
    );
    &&& 1 <= quad.minimum[0] <= 30
    &&& 1 <= quad.minimum[1] <= 30
    &&& 1 <= quad.minimum[2] <= 30
    &&& voxels[at].id != 0
    &&& voxels[at + face_step(face)].id == 0
}

/// True when every quad of every group shows a face.
pub open spec fn is_culled(groups: Seq<Seq<Quad>>, voxels: Seq<Voxel>) -> bool {
    forall|f: int, k: int|
        0 <= f < groups.len() && 0 <= k < groups[f].len() ==> shows_face(
            #[trigger] groups[f][k],
            f,
            voxels,
        )
}

/// The groups of quads as sequences.
pub open spec fn groups_view(groups: Vec<Vec<Quad>>) -> Seq<Seq<Quad>> {
    Seq::new(groups@.len(), |f: int| groups@[f]@)
}

/// True of the faces whose triangles run counter-clockwise through the quad's
/// corners.
pub open spec fn counter_clockwise(face: int) -> bool {
    face == 0 || face == 4 || face == 5
}

/// The six vertex indices of a quad whose first vertex has index `start`.
pub open spec fn quad_indices(face: int, start: int) -> Seq<int> {
    if counter_clockwise(face) {
        seq![start, start + 1, start + 2, start + 1, start + 3, start + 2]
    } else {
        seq![start, start + 2, start + 1, start + 1, start + 2, start + 3]
    }
}

/// A quad of face `face` with the block that lies at its lowest voxel.
pub open spec fn placed(quad: Quad, face: int, blocks: Seq<u8>) -> MeshQuad {
    MeshQuad {
        face: face as usize,
        quad,
        block: blocks[block_index(
            quad.minimum[0] as int,
            quad.minimum[1] as int,
            quad.minimum[2] as int,
        )],
    }
}

/// The quads of the first `faces` groups, group after group.
pub open spec fn placed_groups(groups: Seq<Seq<Quad>>, blocks: Seq<u8>, faces: nat) -> Seq<
    MeshQuad,
>
    decreases faces,
{
    if faces == 0 {
        Seq::empty()
    } else {
        placed_groups(groups, blocks, (faces - 1) as nat) + Seq::new(
            groups[faces - 1].len(),
            |k: int| placed(groups[faces - 1][k], faces - 1, blocks),
        )
    }
}

/// The index list of a mesh: quad `k` owns the vertices `4k` to `4k + 3` and
/// the six indices from `6k` on.
pub open spec fn mesh_indices(quads: Seq<MeshQuad>) -> Seq<u32> {
    Seq::new(
        6 * quads.len(),
        |i: int| quad_indices(quads[i / 6].face as int, 4 * (i / 6))[i % 6] as u32,
    )
}

/// The mesh that shows `groups` on a chunk with the blocks `blocks`.
pub open spec fn assemble(groups: Seq<Seq<Quad>>, blocks: Seq<u8>) -> ChunkMeshView {
    let quads = placed_groups(groups, blocks, 6);
    ChunkMeshView { quads, indices: mesh_indices(quads) }
}

/// The voxels that stand for `blocks`.
pub open spec fn voxels_of(blocks: Seq<u8>) -> Seq<Voxel> {
    Seq::new(blocks.len(), |i: int| Voxel { id: blocks[i] })
}

/// The mesh of a chunk with the blocks `blocks`.
pub open spec fn mesh_of(blocks: Seq<u8>) -> ChunkMeshView {
    assemble(greedy_quads_of(voxels_of(blocks)), blocks)
}

/// `block_mesh::greedy_quads` on a whole chunk, from `[0; 3]` to `[31; 3]`,
/// with the faces of `block_mesh::RIGHT_HANDED_Y_UP_CONFIG` and a fresh
/// buffer. The quads are a function of the voxels alone, which the contract
/// names `greedy_quads_of`. The crate fills one group for each face, and for
/// each face walks the voxels off the chunk's border once, adding at most one
/// quad that starts at the voxel it stands on: that much is stated as
/// `is_mesher_output`. It starts a quad only at a voxel that needs a face:
/// one that is not empty and whose neighbour across the face is empty, or is
/// translucent where the voxel itself is opaque. As no voxel of a chunk is
/// empty, the voxel is a set one and its neighbour an unset one: that is
/// `is_culled`. Which faces merge into which quads is not stated.
#[verifier::external_body]
fn greedy_quads(voxels: &[Voxel; 32768]) -> (groups: Vec<Vec<Quad>>)
    ensures
        groups_view(groups) == greedy_quads_of(voxels@),
        is_mesher_output(groups_view(groups)),
        is_culled(groups_view(groups), voxels@),
{
    let mut buffer = block_mesh::GreedyQuadsBuffer::new(voxels.len());
    let faces = block_mesh::RIGHT_HANDED_Y_UP_CONFIG.faces;
    block_mesh::greedy_quads(voxels, &ChunkShape {  }, [0; 3], [31; 3], &faces, &mut buffer);
    let quad = |q: block_mesh::UnorientedQuad| {
        Quad { minimum: q.minimum, width: q.width, height: q.height }
    };
    buffer.quads.groups.into_iter().map(|g| g.into_iter().map(quad).collect()).collect()
}

/// `block_mesh::OrientedBlockFace::quad_mesh_indices` on face `face` of
/// `block_mesh::RIGHT_HANDED_Y_UP_CONFIG`: the indices of the quad's two
/// triangles, wound by the sign of the face's normal times the sign of its
/// axis permutation. The crate adds up to 3 to `start` with `+`.
#[verifier::external_body]
fn face_quad_indices(face: usize, start: u32) -> (indices: [u32; 6])
    requires
        face < 6,
        start + 3 <= u32::MAX,
    ensures
        forall|j: int| 0 <= j < 6 ==> indices[j] as int == quad_indices(face as int, start as int)[j],
{
    block_mesh::RIGHT_HANDED_Y_UP_CONFIG.faces[face].quad_mesh_indices(start)
}

/// Every quad among the placed ones comes from a quad of one of the groups.
proof fn lemma_placed_member(groups: Seq<Seq<Quad>>, blocks: Seq<u8>, faces: nat, k: int)
    requires
        0 <= k < placed_groups(groups, blocks, faces).len(),
    ensures
        exists|f: int, j: int|
            0 <= f < faces && 0 <= j < groups[f].len() && placed_groups(groups, blocks, faces)[k]
                == placed(#[trigger] groups[f][j], f, blocks),
    decreases faces,
{
    if faces > 0 {
        let earlier = placed_groups(groups, blocks, (faces - 1) as nat);
        if k < earlier.len() {
            lemma_placed_member(groups, blocks, (faces - 1) as nat, k);
            let (f, j) = choose|f: int, j: int|
                0 <= f < faces - 1 && 0 <= j < groups[f].len() && earlier[k] == placed(
                    #[trigger] groups[f][j],
                    f,
                    blocks,
                );
            assert(placed_groups(groups, blocks, faces)[k] == placed(groups[f][j], f, blocks));
        } else {
            let j = k - earlier.len();
            assert(placed_groups(groups, blocks, faces)[k] == placed(
                groups[faces - 1][j],
                faces - 1,
                blocks,
            ));
        }
    }
}

/// The six indices of quad `k` name the four vertices of quad `k`: index `i`
/// of a mesh lies from `4 * (i / 6)` up to `4 * (i / 6) + 3`, so every index
/// names a vertex of the mesh.
pub proof fn lemma_mesh_indices_in_range(quads: Seq<MeshQuad>, i: int)
    requires
        quads.len() <= 196608,
        0 <= i < 6 * quads.len(),
    ensures
        mesh_indices(quads).len() == 6 * quads.len(),
        4 * (i / 6) <= mesh_indices(quads)[i] < 4 * (i / 6) + 4,
        mesh_indices(quads)[i] < 4 * quads.len(),
{
    let k = i / 6;
    let six = quad_indices(quads[k].face as int, 4 * k);
    assert(0 <= k < quads.len());
    assert(0 <= i % 6 < 6);
    assert(4 * k <= six[i % 6] < 4 * k + 4);
}

proof fn lemma_mesh_indices_push(quads: Seq<MeshQuad>, quad: MeshQuad, six: Seq<u32>)
    requires
        six.len() == 6,
        forall|j: int|
            0 <= j < 6 ==> six[j] as int == quad_indices(quad.face as int, 4 * (quads.len() as int))[j],
        4 * quads.len() + 3 <= u32::MAX,
    ensures
        mesh_indices(quads.push(quad)) == mesh_indices(quads) + six,
{
    let n = quads.len() as int;
    let left = mesh_indices(quads.push(quad));
    let right = mesh_indices(quads) + six;
    assert(left.len() == right.len());
    assert forall|i: int| 0 <= i < left.len() implies left[i] == right[i] by {
        if i < 6 * n {
            assert(i / 6 < n);
            assert(quads.push(quad)[i / 6] == quads[i / 6]);
        } else {
            assert(i / 6 == n);
            assert(i % 6 == i - 6 * n);
            assert(quads.push(quad)[n] == quad);
            assert(right[i] == six[i - 6 * n]);
        }
    }
    assert(left =~= right);
}

impl Chunk {
    /// Lays the quads of a mesher run on this chunk out as a mesh: the quads
    /// of face 0 first, each with the block at its lowest voxel, and for each
    /// quad the six indices of its two triangles.
    pub fn mesh_from_quads(&self, groups: &Vec<Vec<Quad>>) -> (mesh: ChunkMesh)
        requires
            is_mesher_output(groups_view(*groups)),
        ensures
            mesh@ == assemble(groups_view(*groups), self.blocks@),
            mesh@.quads.len() <= 196608,
    {
        let ghost all = groups_view(*groups);
        let ghost blocks = self.blocks@;
        let mut quads: Vec<MeshQuad> = Vec::new();
        let mut indices: Vec<u32> = Vec::new();
        let mut face: usize = 0;
        while face < 6
            invariant
                face <= 6,
                groups@.len() == 6,
                all == groups_view(*groups),
                is_mesher_output(all),
                blocks == self.blocks@,
                quads@ == placed_groups(all, blocks, face as nat),
                indices@ == mesh_indices(quads@),
                quads@.len() <= 32768 * face,
            decreases 6 - face,
        {
            let group = &groups[face];
            let ghost before = quads@;
            assert(all[face as int] == group@);
            let mut k: usize = 0;
            while k < group.len()
                invariant
                    face < 6,
                    k <= group@.len(),
                    group@.len() <= 32768,
                    all[face as int] == group@,
                    is_mesher_output(all),
                    blocks == self.blocks@,
                    before.len() <= 32768 * face,
                    quads@ == before + Seq::new(
                        k as nat,
                        |j: int| placed(group@[j], face as int, blocks),
                    ),
                    indices@ == mesh_indices(quads@),
                decreases group@.len() - k,
            {
                let quad = group[k];
                assert(starts_in_chunk(all[face as int][k as int]));
                let block = self.get_block(quad.minimum);
                let start: u32 = (4 * quads.len()) as u32;
                let six = face_quad_indices(face, start);
                let placed_quad = MeshQuad { face, quad, block };
                proof {
                    lemma_mesh_indices_push(quads@, placed_quad, six@);
                }
                let ghost base = indices@;
                let mut j: usize = 0;
                while j < 6
                    invariant
                        j <= 6,
                        six@.len() == 6,
                        indices@ == base + six@.take(j as int),
                    decreases 6 - j,
                {
                    indices.push(six[j]);
                    j += 1;
                    assert(six@.take(j as int) == six@.take(j - 1).push(six@[j - 1]));
                }
                assert(six@.take(6) == six@);
                quads.push(placed_quad);
                k += 1;
                assert(quads@ == before + Seq::new(
                    k as nat,
                    |j: int| placed(group@[j], face as int, blocks),
                ));
            }
            face += 1;
            assert(quads@ == placed_groups(all, blocks, face as nat)) by {
                assert(Seq::new(group@.len(), |j: int| placed(group@[j], face - 1, blocks))
                    =~= Seq::new(
                    all[face - 1].len(),
                    |j: int| placed(all[face - 1][j], face - 1, blocks),
                ));
            }
        }
        ChunkMesh { quads, indices }
    }

    /// Meshes the chunk: the faces of set blocks that border unset ones off
    /// the chunk's border, merged greedily into quads of one block id. Every
    /// quad starts at a set block whose neighbour across the quad's face is
    /// unset, so a chunk without a set block has no quads and no indices.
    pub fn mesh(&self) -> (mesh: ChunkMesh)
        ensures
            mesh@ == mesh_of(self.blocks@),
            is_mesher_output(greedy_quads_of(voxels_of(self.blocks@))),
            mesh@.quads.len() <= 196608,
            forall|k: int|
                0 <= k < mesh@.quads.len() ==> {
                    let placed = #[trigger] mesh@.quads[k];
                    &&& shows_face(placed.quad, placed.face as int, voxels_of(self.blocks@))
                    &&& placed.block != 0
                },
            self.is_blank() ==> mesh@.quads.len() == 0 && mesh@.indices.len() == 0,
    {
        let mut voxels: [Voxel; 32768] = [Voxel { id: 0 }; 32768];
        let mut i: u32 = 0;
        while i < 32768
            invariant
                i <= 32768,
                forall|j: int| 0 <= j < i ==> (#[trigger] voxels@[j]).id == self.blocks@[j],
            decreases 32768 - i,
        {
            let positions = delinearize(i);
            proof {
                lemma_index_in_chunk(i as int);
            }
            let id = self.get_block(positions);
            voxels[i as usize] = Voxel { id };
            i += 1;
        }
        assert(voxels@ =~= voxels_of(self.blocks@));
        let groups = greedy_quads(&voxels);
        let mesh = self.mesh_from_quads(&groups);
        proof {
            let all = groups_view(groups);
            assert forall|k: int| 0 <= k < mesh@.quads.len() implies {
                let placed = #[trigger] mesh@.quads[k];
                &&& shows_face(placed.quad, placed.face as int, voxels@)
                &&& placed.block != 0
            } by {
                lemma_placed_member(all, self.blocks@, 6, k);
                let (f, j) = choose|f: int, j: int|
                    0 <= f < 6 && 0 <= j < all[f].len() && mesh@.quads[k] == placed(
                        #[trigger] all[f][j],
                        f,
                        self.blocks@,
                    );
                assert(shows_face(all[f][j], f, voxels@));
            }
            if self.is_blank() && mesh@.quads.len() > 0 {
                let first = mesh@.quads[0];
                assert(first.block != 0);
                assert(shows_face(first.quad, first.face as int, voxels@));
            }
        }
        mesh
    }

    /// The chunk's mesh: the one built last while no block has changed since,
    /// else a new one, which is kept and clears `dirty`.
    pub fn get_mesh(&mut self) -> (mesh: &ChunkMesh)
        ensures
            final(self).blocks == old(self).blocks,
            final(self).world_pos == old(self).world_pos,
            final(self).entity == old(self).entity,
            !final(self).dirty,
            final(self).mesh == Some(*mesh),
            !old(self).dirty && old(self).mesh is Some ==> old(self).mesh == Some(*mesh),
            old(self).dirty || old(self).mesh is None ==> mesh@ == mesh_of(old(self).blocks@)
                && mesh@.quads.len() <= 196608,
    {
        if self.dirty || self.mesh.is_none() {
            let built = self.mesh();
            self.mesh = Some(built);
            self.dirty = false;
        }
        self.mesh.as_ref().unwrap()
    }
}

} // verus!
