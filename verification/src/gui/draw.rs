//! The draws of a user interface: its meshes in one buffer, each with its own clipping.

use crate::gui::textures::{GuiTextures, TextureId};
#[allow(unused_imports)]
use crate::index_map::{has_id, id_at};
use crate::vk::Rect2D;
use vstd::prelude::*;

verus! {

/// The bits of a vertex: its position, texture coordinates and colour.
pub type GuiVertex = [u32; 5];

/// The size of the screen in front of the texture number in the push constants.
pub const TEXTURE_INDEX_OFFSET: u32 = 8;

/// A mesh of a user interface.
pub struct GuiMesh {
    pub indices: Vec<u32>,
    pub vertices: Vec<GuiVertex>,
    pub scissor: Rect2D,
    pub texture_id: TextureId,
}

/// A draw of a mesh.
#[derive(Clone, Copy, PartialEq, Eq, Structural, Debug)]
pub struct GuiDraw {
    /// The clipping to set before the draw, where it changes.
    pub set_scissor: Option<Rect2D>,
    pub texture_index: u32,
    pub index_count: u32,
    pub first_index: u32,
    pub vertex_offset: i32,
}

/// The meshes in one buffer, with their draws.
pub struct GuiFrame {
    pub indices: Vec<u32>,
    pub vertices: Vec<GuiVertex>,
    pub draws: Vec<GuiDraw>,
}

/// The indices of the first `n` meshes.
pub open spec fn all_indices(meshes: Seq<GuiMesh>, n: nat) -> Seq<u32>
    decreases n,
{
    if n == 0 {
        seq![]
    } else {
        all_indices(meshes, (n - 1) as nat) + meshes[n - 1].indices@
    }
}

/// The vertices of the first `n` meshes.
pub open spec fn all_vertices(meshes: Seq<GuiMesh>, n: nat) -> Seq<GuiVertex>
    decreases n,
{
    if n == 0 {
        seq![]
    } else {
        all_vertices(meshes, (n - 1) as nat) + meshes[n - 1].vertices@
    }
}

/// The indices and vertices can be numbered.
pub open spec fn meshes_fit(meshes: Seq<GuiMesh>) -> bool {
    all_indices(meshes, meshes.len()).len() <= u32::MAX && all_vertices(meshes, meshes.len()).len()
        <= i32::MAX
}

/// Every mesh has a texture that exists.
pub open spec fn textures_known(meshes: Seq<GuiMesh>, textures: GuiTextures) -> bool {
    forall|i: int|
        0 <= i < meshes.len() ==> has_id(
            textures.entries(),
            (#[trigger] meshes[i]).texture_id.spec_key(),
        )
}

/// The draw of mesh `i`: the clipping is set for the first mesh, and where it differs from that
/// of the mesh before.
pub open spec fn draws_mesh(
    meshes: Seq<GuiMesh>,
    textures: GuiTextures,
    i: int,
    draw: GuiDraw,
) -> bool {
    &&& draw.set_scissor == (if i == 0 || meshes[i].scissor != meshes[i - 1].scissor {
        Some(meshes[i].scissor)
    } else {
        None
    })
    &&& id_at(textures.entries(), meshes[i].texture_id.spec_key(), draw.texture_index as int)
    &&& draw.index_count == meshes[i].indices.len()
    &&& draw.first_index == all_indices(meshes, i as nat).len()
    &&& draw.vertex_offset == all_vertices(meshes, i as nat).len()
}

proof fn buffers_grow(meshes: Seq<GuiMesh>, m: nat, n: nat)
    requires
        m <= n,
    ensures
        all_indices(meshes, m).is_prefix_of(all_indices(meshes, n)),
        all_vertices(meshes, m).is_prefix_of(all_vertices(meshes, n)),
    decreases n,
{
    if m < n {
        buffers_grow(meshes, m, (n - 1) as nat);
    }
}

/// A draw reads the indices and vertices of its own mesh.
pub proof fn draw_reads_its_mesh(
    meshes: Seq<GuiMesh>,
    textures: GuiTextures,
    i: int,
    draw: GuiDraw,
)
    requires
        0 <= i < meshes.len(),
        draws_mesh(meshes, textures, i, draw),
    ensures
        draw.first_index + draw.index_count <= all_indices(meshes, meshes.len()).len(),
        all_indices(meshes, meshes.len()).subrange(
            draw.first_index as int,
            draw.first_index + draw.index_count,
        ) == meshes[i].indices@,
        draw.vertex_offset + meshes[i].vertices.len() <= all_vertices(meshes, meshes.len()).len(),
        all_vertices(meshes, meshes.len()).subrange(
            draw.vertex_offset as int,
            draw.vertex_offset + meshes[i].vertices.len(),
        ) == meshes[i].vertices@,
{
    buffers_grow(meshes, (i + 1) as nat, meshes.len());
    let (indices, vertices) = (
        all_indices(meshes, (i + 1) as nat),
        all_vertices(meshes, (i + 1) as nat),
    );
    let count = meshes[i].vertices.len();
    assert(indices == all_indices(meshes, i as nat) + meshes[i].indices@);
    assert(vertices == all_vertices(meshes, i as nat) + meshes[i].vertices@);
    assert(all_indices(meshes, meshes.len()).subrange(
        draw.first_index as int,
        draw.first_index + draw.index_count,
    ) =~= indices.subrange(draw.first_index as int, draw.first_index + draw.index_count));
    assert(indices.subrange(draw.first_index as int, draw.first_index + draw.index_count)
        =~= meshes[i].indices@);
    assert(all_vertices(meshes, meshes.len()).subrange(
        draw.vertex_offset as int,
        draw.vertex_offset + count,
    ) =~= vertices.subrange(draw.vertex_offset as int, draw.vertex_offset + count));
    assert(vertices.subrange(draw.vertex_offset as int, draw.vertex_offset + count)
        =~= meshes[i].vertices@);
}

/// The meshes can be drawn: their indices and vertices can be numbered, and their textures exist.
pub fn check_meshes(meshes: &Vec<GuiMesh>, textures: &GuiTextures) -> (ok: bool)
    ensures
        ok == (meshes_fit(meshes@) && textures_known(meshes@, *textures)),
{
    let mut num_indices: u64 = 0;
    let mut num_vertices: u64 = 0;
    let mut i: usize = 0;
    while i < meshes.len()
        invariant
            i <= meshes.len(),
            num_indices == all_indices(meshes@, i as nat).len(),
            num_indices <= u32::MAX,
            num_vertices == all_vertices(meshes@, i as nat).len(),
            num_vertices <= i32::MAX,
            forall|k: int|
                0 <= k < i ==> has_id(
                    textures.entries(),
                    (#[trigger] meshes@[k]).texture_id.spec_key(),
                ),
        decreases meshes.len() - i,
    {
        let mesh = &meshes[i];
        if textures.index_of(&mesh.texture_id).is_none() {
            return false;
        }
        proof {
            buffers_grow(meshes@, (i + 1) as nat, meshes@.len());
        }
        if mesh.indices.len() as u64 > u32::MAX as u64 - num_indices || mesh.vertices.len() as u64
            > i32::MAX as u64 - num_vertices {
            return false;
        }
        num_indices += mesh.indices.len() as u64;
        num_vertices += mesh.vertices.len() as u64;
        i += 1;
    }
    true
}

/// Adds items at the end of a list.
fn append<T: Copy>(list: &mut Vec<T>, items: &Vec<T>)
    ensures
        final(list)@ == old(list)@ + items@,
{
    let mut i: usize = 0;
    while i < items.len()
        invariant
            i <= items.len(),
            list@ == old(list)@ + items@.take(i as int),
        decreases items.len() - i,
    {
        list.push(items[i]);
        i += 1;
        assert(list@ =~= old(list)@ + items@.take(i as int));
    }
    assert(items@.take(items.len() as int) =~= items@);
}

/// Puts the meshes in one buffer and lists their draws.
pub fn build_frame(meshes: &Vec<GuiMesh>, textures: &GuiTextures) -> (frame: GuiFrame)
    requires
        meshes_fit(meshes@),
        textures_known(meshes@, *textures),
        textures.entries().len() <= u32::MAX,
    ensures
        frame.indices@ == all_indices(meshes@, meshes@.len()),
        frame.vertices@ == all_vertices(meshes@, meshes@.len()),
        frame.draws.len() == meshes.len(),
        forall|i: int|
            0 <= i < meshes.len() ==> draws_mesh(
                meshes@,
                *textures,
                i,
                #[trigger] frame.draws@[i],
            ),
{
    let mut indices: Vec<u32> = Vec::new();
    let mut vertices: Vec<GuiVertex> = Vec::new();
    let mut draws: Vec<GuiDraw> = Vec::with_capacity(meshes.len());
    let mut current_scissor: Option<Rect2D> = None;
    let mut i: usize = 0;
    while i < meshes.len()
        invariant
            i <= meshes.len(),
            meshes_fit(meshes@),
            textures_known(meshes@, *textures),
            textures.entries().len() <= u32::MAX,
            current_scissor == (if i == 0 {
                None
            } else {
                Some(meshes@[i - 1].scissor)
            }),
            indices@ == all_indices(meshes@, i as nat),
            vertices@ == all_vertices(meshes@, i as nat),
            draws.len() == i,
            forall|k: int|
                0 <= k < i ==> draws_mesh(meshes@, *textures, k, #[trigger] draws@[k]),
        decreases meshes.len() - i,
    {
        let mesh = &meshes[i];
        proof {
            buffers_grow(meshes@, (i + 1) as nat, meshes@.len());
            assert(has_id(textures.entries(), meshes@[i as int].texture_id.spec_key()));
        }
        let changed: bool = match current_scissor {
            Some(scissor) => scissor != mesh.scissor,
            None => true,
        };
        let set_scissor: Option<Rect2D> = if changed {
            Some(mesh.scissor)
        } else {
            None
        };
        current_scissor = Some(mesh.scissor);
        match textures.index_of(&mesh.texture_id) {
            Some(index) => {
                draws.push(
                    GuiDraw {
                        set_scissor,
                        texture_index: index as u32,
                        index_count: mesh.indices.len() as u32,
                        first_index: indices.len() as u32,
                        vertex_offset: vertices.len() as i32,
                    },
                );
            },
            None => {},
        }
        append(&mut indices, &mesh.indices);
        append(&mut vertices, &mesh.vertices);
        i += 1;
    }
    GuiFrame { indices, vertices, draws }
}

/// When a mesh is drawn, the clipping that was set last is its own.
pub proof fn meshes_are_clipped_to_their_own(
    meshes: Seq<GuiMesh>,
    textures: GuiTextures,
    draws: Seq<GuiDraw>,
    i: int,
)
    requires
        0 <= i < meshes.len(),
        draws.len() == meshes.len(),
        forall|k: int|
            0 <= k < meshes.len() ==> draws_mesh(meshes, textures, k, #[trigger] draws[k]),
    ensures
        exists|j: int| set_last(draws, i, j, meshes[i].scissor),
    decreases i,
{
    assert(draws_mesh(meshes, textures, i, draws[i]));
    if i == 0 || meshes[i].scissor != meshes[i - 1].scissor {
        assert(set_last(draws, i, i, meshes[i].scissor));
    } else {
        meshes_are_clipped_to_their_own(meshes, textures, draws, i - 1);
        let (before, scissor) = (i - 1, meshes[i - 1].scissor);
        let j = choose|j: int| set_last(draws, before, j, scissor);
        assert(set_last(draws, i, j, meshes[i].scissor));
    }
}

/// Draw `j` sets the clipping, and no draw up to `i` sets it again.
pub open spec fn set_last(draws: Seq<GuiDraw>, i: int, j: int, scissor: Rect2D) -> bool {
    &&& 0 <= j <= i
    &&& draws[j].set_scissor == Some(scissor)
    &&& forall|k: int| j < k <= i ==> (#[trigger] draws[k]).set_scissor is None
}

/// A mesh is drawn with the texture that it names.
pub proof fn meshes_use_their_textures(
    meshes: Seq<GuiMesh>,
    textures: GuiTextures,
    i: int,
    draw: GuiDraw,
)
    requires
        0 <= i < meshes.len(),
        draws_mesh(meshes, textures, i, draw),
    ensures
        draw.texture_index < textures.entries().len(),
        textures.entries()[draw.texture_index as int].0 == (match meshes[i].texture_id {
            TextureId::Managed(id) => (0u32, id),
            TextureId::User(id) => (1u32, id),
        }),
{
}

} // verus!
