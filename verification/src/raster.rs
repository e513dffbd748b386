//! The integer core of the rasterization stage: index retrieval for
//! triangle lists, fan triangulation of clipped convex polygons, and the
//! depth-tested write of a shaded fragment into the frame buffers.

use vstd::prelude::*;

use crate::texture::DepthTexture;
use crate::texture::Sampler;
use crate::texture::Texture;

verus! {

/// The three indices of triangle `triangle_id` in a flat index list.
pub fn triangle_indices(input_indices: &[usize], triangle_id: usize) -> (r: [usize; 3])
    requires
        3 * triangle_id + 2 < input_indices@.len(),
    ensures
        r@[0] == input_indices@[3 * triangle_id],
        r@[1] == input_indices@[3 * triangle_id + 1],
        r@[2] == input_indices@[3 * triangle_id + 2],
{
    proof {
        assert(input_indices.len() == input_indices@.len());
    }
    [input_indices[triangle_id * 3], input_indices[triangle_id * 3 + 1], input_indices[triangle_id
        * 3 + 2]]
}

/// The three attribute values that an index triple selects.
pub fn retrieve<T: Copy>(source: &[T], indices: [usize; 3]) -> (r: [T; 3])
    requires
        indices@[0] < source@.len(),
        indices@[1] < source@.len(),
        indices@[2] < source@.len(),
    ensures
        r@[0] == source@[indices@[0] as int],
        r@[1] == source@[indices@[1] as int],
        r@[2] == source@[indices@[2] as int],
{
    [source[indices[0]], source[indices[1]], source[indices[2]]]
}

/// Triple `k` of a fan over a polygon whose first output vertex sits at
/// `base`: the indices (base, base + k + 1, base + k + 2).
pub open spec fn fan_triple_at(r: Seq<usize>, base: int, k: int) -> bool {
    r[3 * k] == base && r[3 * k + 1] == base + k + 1 && r[3 * k + 2] == base + k + 2
}

/// Fan-triangulates a convex polygon of `vertex_count` vertices whose
/// first vertex sits at `base` in the output vertex stream: one index
/// triple (base, base + v, base + v + 1) per consecutive vertex pair. A
/// polygon with fewer than three vertices yields no triangle.
pub fn fan_indices(base: usize, vertex_count: usize) -> (r: Vec<usize>)
    requires
        vertex_count >= 1,
        base + vertex_count <= usize::MAX,
    ensures
        r@.len() == 3 * (if vertex_count >= 3 {
            (vertex_count - 2) as int
        } else {
            0
        }),
        forall|k: int| 0 <= k < vertex_count - 2 ==> #[trigger] fan_triple_at(r@, base as int, k),
{
    let mut r: Vec<usize> = Vec::new();
    if vertex_count < 3 {
        return r;
    }
    let mut v: usize = 1;
    while v < vertex_count - 1
        invariant
            vertex_count >= 3,
            base + vertex_count <= usize::MAX,
            1 <= v <= vertex_count - 1,
            r@.len() == 3 * (v - 1),
            forall|k: int| 0 <= k < v - 1 ==> #[trigger] fan_triple_at(r@, base as int, k),
        decreases vertex_count - v,
    {
        let ghost r0 = r@;
        r.push(base);
        r.push(base + v);
        r.push(base + v + 1);
        proof {
            assert(fan_triple_at(r@, base as int, v - 1));
            assert forall|k: int| 0 <= k < v - 1 implies fan_triple_at(r@, base as int, k) by {
                assert(fan_triple_at(r0, base as int, k));
                assert(r@[3 * k] == r0[3 * k]);
                assert(r@[3 * k + 1] == r0[3 * k + 1]);
                assert(r@[3 * k + 2] == r0[3 * k + 2]);
            }
        }
        v = v + 1;
    }
    r
}

/// Holds the texture and sampler that shade every fragment of a draw
/// call.
pub struct FragmentShader {
    pub mesh_texture: Texture,
    pub mesh_sampler: Sampler,
}

impl FragmentShader {
    /// Fetches the mesh texture's texel at the given coordinates,
    /// clamped to its edges.
    pub fn sample(&self, i: usize, j: usize) -> (c: u32)
        requires
            self.mesh_texture.wf(),
            self.mesh_texture.spec_width() >= 1,
            self.mesh_texture.spec_height() >= 1,
        ensures
            c == self.mesh_texture.pix(
                if i < self.mesh_texture.spec_width() {
                    i as int
                } else {
                    self.mesh_texture.spec_width() - 1
                },
                if j < self.mesh_texture.spec_height() {
                    j as int
                } else {
                    self.mesh_texture.spec_height() - 1
                },
            ),
    {
        self.mesh_sampler.sample(&self.mesh_texture, i, j)
    }
}

/// Commits one shaded fragment: the fragment's depth is tested against
/// the depth buffer and, exactly when it is nearer than the stored
/// value, the depth buffer takes the new depth and the colour buffer
/// takes the fragment's colour. A failing fragment leaves both buffers
/// untouched.
pub fn commit_fragment(
    out: &mut Texture,
    depth_buffer: &mut DepthTexture,
    i: usize,
    j: usize,
    depth_code: u32,
    colour: u32,
) -> (passed: bool)
    requires
        old(out).wf(),
        old(depth_buffer).wf(),
        old(out).spec_width() == old(depth_buffer).spec_width(),
        old(out).spec_height() == old(depth_buffer).spec_height(),
        i < old(out).spec_width(),
        j < old(out).spec_height(),
    ensures
        passed <==> depth_code < old(depth_buffer).pix(i as int, j as int),
        final(out).wf(),
        final(depth_buffer).wf(),
        final(out).spec_width() == old(out).spec_width(),
        final(out).spec_height() == old(out).spec_height(),
        final(depth_buffer).spec_width() == old(depth_buffer).spec_width(),
        final(depth_buffer).spec_height() == old(depth_buffer).spec_height(),
        passed ==> final(out).pix(i as int, j as int) == colour,
        passed ==> final(depth_buffer).pix(i as int, j as int) == depth_code,
        !passed ==> *final(out) == *old(out) && *final(depth_buffer) == *old(depth_buffer),
        forall|i2: int, j2: int|
            0 <= i2 < old(out).spec_width() && 0 <= j2 < old(out).spec_height() && !(i2 == i && j2
                == j) ==> final(out).pix(i2, j2) == old(out).pix(i2, j2)
                && final(depth_buffer).pix(i2, j2) == old(depth_buffer).pix(i2, j2),
{
    if depth_buffer.depth_test(i, j, depth_code) {
        out.write(i, j, colour);
        true
    } else {
        false
    }
}

} // verus!
