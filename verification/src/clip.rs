//! The Sutherland-Hodgman polygon walk: one clipping step against a
//! single half-space. The geometric decisions (whether a vertex lies
//! inside the half-space, and where an edge crosses its boundary) are
//! floating-point work and arrive here as plain values; the walk that
//! keeps, drops and inserts vertices is verified.

use vstd::prelude::*;

verus! {

/// What one vertex of the walk contributes to the output: the vertex
/// itself when it is inside the half-space, then the crossing point of
/// the edge leaving it, when that edge crosses the boundary.
pub open spec fn clip_entry<V>(
    polygon: Seq<V>,
    inside: Seq<bool>,
    crossings: Seq<Option<V>>,
    i: int,
) -> Seq<V> {
    (if inside[i] {
        seq![polygon[i]]
    } else {
        Seq::empty()
    }) + (match crossings[i] {
        Some(c) => seq![c],
        None => Seq::empty(),
    })
}

/// The walk's output over the first `n` vertices.
pub open spec fn clip_prefix<V>(
    polygon: Seq<V>,
    inside: Seq<bool>,
    crossings: Seq<Option<V>>,
    n: int,
) -> Seq<V>
    decreases n,
{
    if n <= 0 {
        Seq::empty()
    } else {
        clip_prefix(polygon, inside, crossings, n - 1) + clip_entry(
            polygon,
            inside,
            crossings,
            n - 1,
        )
    }
}

/// The full Sutherland-Hodgman step against one half-space.
pub open spec fn spec_clip_step<V>(
    polygon: Seq<V>,
    inside: Seq<bool>,
    crossings: Seq<Option<V>>,
) -> Seq<V> {
    clip_prefix(polygon, inside, crossings, polygon.len() as int)
}

/// One Sutherland-Hodgman step. `inside[i]` says whether vertex `i`
/// lies in the half-space being clipped against; `crossings[i]` holds
/// the point where the cyclic edge from vertex `i` to vertex `i + 1`
/// crosses the half-space's boundary, if it does. Each vertex inside
/// the half-space is kept, and each crossing point is inserted after
/// the vertex whose outgoing edge produced it.
pub fn clip_step<V: Copy>(polygon: &Vec<V>, inside: &Vec<bool>, crossings: &Vec<Option<V>>) -> (out:
    Vec<V>)
    requires
        inside@.len() == polygon@.len(),
        crossings@.len() == polygon@.len(),
    ensures
        out@ == spec_clip_step(polygon@, inside@, crossings@),
{
    let n = polygon.len();
    let mut out: Vec<V> = Vec::new();
    let mut i: usize = 0;
    while i < n
        invariant
            n == polygon@.len(),
            inside@.len() == n,
            crossings@.len() == n,
            i <= n,
            out@ == clip_prefix(polygon@, inside@, crossings@, i as int),
        decreases n - i,
    {
        if inside[i] {
            out.push(polygon[i]);
        }
        if let Some(c) = crossings[i] {
            out.push(c);
        }
        proof {
            assert(out@ =~= clip_prefix(polygon@, inside@, crossings@, i + 1));
        }
        i = i + 1;
    }
    out
}

/// Clipping against a half-space that contains the whole polygon (every
/// vertex inside, no edge crossing the boundary) returns the polygon
/// unchanged.
pub proof fn lemma_clip_step_inside_keeps_polygon<V>(
    polygon: Seq<V>,
    inside: Seq<bool>,
    crossings: Seq<Option<V>>,
)
    requires
        inside.len() == polygon.len(),
        crossings.len() == polygon.len(),
        forall|i: int| 0 <= i < polygon.len() ==> inside[i],
        forall|i: int| 0 <= i < polygon.len() ==> crossings[i] is None,
    ensures
        spec_clip_step(polygon, inside, crossings) == polygon,
{
    lemma_clip_prefix_inside(polygon, inside, crossings, polygon.len() as int);
    assert(polygon.subrange(0, polygon.len() as int) =~= polygon);
}

proof fn lemma_clip_prefix_inside<V>(
    polygon: Seq<V>,
    inside: Seq<bool>,
    crossings: Seq<Option<V>>,
    n: int,
)
    requires
        0 <= n <= polygon.len(),
        inside.len() == polygon.len(),
        crossings.len() == polygon.len(),
        forall|i: int| 0 <= i < polygon.len() ==> inside[i],
        forall|i: int| 0 <= i < polygon.len() ==> crossings[i] is None,
    ensures
        clip_prefix(polygon, inside, crossings, n) == polygon.subrange(0, n),
    decreases n,
{
    if n > 0 {
        lemma_clip_prefix_inside(polygon, inside, crossings, n - 1);
        assert(polygon.subrange(0, n - 1) + seq![polygon[n - 1]] =~= polygon.subrange(0, n));
    } else {
        assert(clip_prefix(polygon, inside, crossings, n) =~= polygon.subrange(0, 0));
    }
}

/// Clipping against a half-space disjoint from the polygon (no vertex
/// inside, no edge crossing the boundary) returns the empty polygon.
pub proof fn lemma_clip_step_outside_empties_polygon<V>(
    polygon: Seq<V>,
    inside: Seq<bool>,
    crossings: Seq<Option<V>>,
)
    requires
        inside.len() == polygon.len(),
        crossings.len() == polygon.len(),
        forall|i: int| 0 <= i < polygon.len() ==> !inside[i],
        forall|i: int| 0 <= i < polygon.len() ==> crossings[i] is None,
    ensures
        spec_clip_step(polygon, inside, crossings) == Seq::<V>::empty(),
{
    lemma_clip_prefix_outside(polygon, inside, crossings, polygon.len() as int);
}

proof fn lemma_clip_prefix_outside<V>(
    polygon: Seq<V>,
    inside: Seq<bool>,
    crossings: Seq<Option<V>>,
    n: int,
)
    requires
        0 <= n <= polygon.len(),
        inside.len() == polygon.len(),
        crossings.len() == polygon.len(),
        forall|i: int| 0 <= i < polygon.len() ==> !inside[i],
        forall|i: int| 0 <= i < polygon.len() ==> crossings[i] is None,
    ensures
        clip_prefix(polygon, inside, crossings, n) == Seq::<V>::empty(),
    decreases n,
{
    if n > 0 {
        lemma_clip_prefix_outside(polygon, inside, crossings, n - 1);
        assert(clip_prefix(polygon, inside, crossings, n) =~= Seq::<V>::empty());
    } else {
        assert(clip_prefix(polygon, inside, crossings, n) =~= Seq::<V>::empty());
    }
}

} // verus!
