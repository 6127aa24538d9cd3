//! The voxel that the mesher reads: a block id and how it shows.

use vstd::prelude::*;

verus! {

/// How a voxel takes part in a mesh.
#[derive(Clone, Copy, Debug, PartialEq, Eq, Structural)]
pub enum Visibility {
    /// Gives no geometry.
    Empty,
    /// Gives geometry against empty space and lets light through.
    Translucent,
    /// Gives geometry against empty and translucent space.
    Opaque,
}

#[derive(Clone, Copy, Debug, PartialEq, Eq, Structural)]
pub struct Voxel {
    pub id: u8,
}

#[verifier::external_type_specification]
#[verifier::external_body]
pub struct ExVoxelVisibility(block_mesh::VoxelVisibility);

/// The mesher's own value for a visibility: the variant of
/// `block_mesh::VoxelVisibility` that has the name of `visibility`.
pub uninterp spec fn mesher_visibility(visibility: Visibility) -> block_mesh::VoxelVisibility;

/// Hands a `Visibility` to the mesher as its own `block_mesh::VoxelVisibility`,
/// variant for variant: `Empty` as `Empty`, `Translucent` as `Translucent`,
/// `Opaque` as `Opaque`. Verus does not look into the outside value, so the
/// contract names it.
#[verifier::external_body]
fn to_mesher_visibility(visibility: Visibility) -> (shown: block_mesh::VoxelVisibility)
    ensures
        shown == mesher_visibility(visibility),
{
    match visibility {
        Visibility::Empty => block_mesh::VoxelVisibility::Empty,
        Visibility::Translucent => block_mesh::VoxelVisibility::Translucent,
        Visibility::Opaque => block_mesh::VoxelVisibility::Opaque,
    }
}

impl Voxel {
    /// The voxel of an unset block.
    pub fn void() -> (v: Voxel)
        ensures
            v.id == 0,
    {
        Voxel { id: 0 }
    }

    /// The unset block is translucent, every other block opaque.
    pub open spec fn spec_visibility(self) -> Visibility {
        if self.id == 0 {
            Visibility::Translucent
        } else {
            Visibility::Opaque
        }
    }

    pub fn visibility(&self) -> (v: Visibility)
        ensures
            v == self.spec_visibility(),
    {
        if self.id == 0 {
            Visibility::Translucent
        } else {
            Visibility::Opaque
        }
    }
}

impl block_mesh::Voxel for Voxel {
    /// What the mesher reads of a voxel: translucent for the unset block,
    /// opaque for every other, in the mesher's own values.
    fn get_visibility(&self) -> (shown: block_mesh::VoxelVisibility)
        ensures
            shown == mesher_visibility(self.spec_visibility()),
    {
        to_mesher_visibility(self.visibility())
    }
}

impl block_mesh::MergeVoxel for Voxel {
    type MergeValue = u8;

    /// Faces merge into one quad only between voxels of one block id.
    fn merge_value(&self) -> (value: u8)
        ensures
            value == self.id,
    {
        self.id
    }
}

} // verus!
