//! Which scene meshes are drawn in which pass, how they are batched into
//! instanced draw calls, and in what order.
use vstd::prelude::*;

use crate::frame_stats::SceneRenderStats;
use crate::mesh::MeshTopology;

verus! {

/// Number of 32-bit words that describe a material: color rgb, opacity, ambient,
/// diffuse, specular rgb, shininess (each the bit pattern of an IEEE-754 binary32).
pub const MATERIAL_WORDS: usize = 10;

/// The bit pattern is a NaN.
pub open spec fn f32_bits_is_nan(b: u32) -> bool {
    (b & 0x7f80_0000u32) == 0x7f80_0000u32 && (b & 0x007f_ffffu32) != 0
}

/// The bit pattern is +0.0 or -0.0.
pub open spec fn f32_bits_is_zero(b: u32) -> bool {
    (b & 0x7fff_ffffu32) == 0
}

/// IEEE-754 equality of two binary32 values given by their bit patterns:
/// NaN equals nothing, the two zeros are equal, otherwise the patterns must agree.
pub open spec fn f32_bits_eq(a: u32, b: u32) -> bool {
    &&& !f32_bits_is_nan(a)
    &&& !f32_bits_is_nan(b)
    &&& (a == b || (f32_bits_is_zero(a) && f32_bits_is_zero(b)))
}

/// Executable IEEE-754 equality on binary32 bit patterns.
pub fn f32_bits_equal(a: u32, b: u32) -> (r: bool)
    ensures
        r == f32_bits_eq(a, b),
{
    let a_nan = (a & 0x7f80_0000u32) == 0x7f80_0000u32 && (a & 0x007f_ffffu32) != 0;
    let b_nan = (b & 0x7f80_0000u32) == 0x7f80_0000u32 && (b & 0x007f_ffffu32) != 0;
    if a_nan || b_nan {
        false
    } else {
        a == b || ((a & 0x7fff_ffffu32) == 0 && (b & 0x7fff_ffffu32) == 0)
    }
}

/// What the renderer needs to know about the material of a mesh entity.
#[derive(Clone, Copy, Debug)]
pub struct MaterialKey {
    /// Bit patterns of the material's floating-point fields, compared field by field.
    pub words: [u32; 10],
    /// The material is drawn at all (its opacity is above the visibility threshold).
    pub visible: bool,
    /// The material is not fully opaque and goes to the blended pass.
    pub transparent: bool,
}

/// Two materials are equal when every field is equal as a float.
pub open spec fn materials_eq(a: MaterialKey, b: MaterialKey) -> bool {
    forall|i: int| 0 <= i < 10 ==> #[trigger] f32_bits_eq(a.words@[i], b.words@[i])
}

/// Executable material equality.
pub fn materials_equal(a: &MaterialKey, b: &MaterialKey) -> (r: bool)
    ensures
        r == materials_eq(*a, *b),
{
    let mut i: usize = 0;
    while i < MATERIAL_WORDS
        invariant
            0 <= i <= 10,
            forall|k: int| 0 <= k < i ==> #[trigger] f32_bits_eq(a.words@[k], b.words@[k]),
        decreases 10 - i,
    {
        if !f32_bits_equal(a.words[i], b.words[i]) {
            return false;
        }
        i = i + 1;
    }
    true
}

/// One renderable entity as seen by the renderer, in the order the world yields it.
#[derive(Clone, Copy, Debug)]
pub struct DrawItem {
    pub topology: MeshTopology,
    /// Identity of the shared GPU mesh: equal ids mean the same mesh object.
    pub mesh: u64,
    /// Entities without a material have no triangles drawn.
    pub material: Option<MaterialKey>,
    /// Distance key of the entity's center from the camera: a larger key is farther away.
    pub depth: u32,
}

/// The three passes of a frame.
#[derive(Clone, Copy, Debug, PartialEq, Eq, Structural)]
pub enum DrawPass {
    /// Line meshes, vertex color only.
    Lines,
    /// Visible, fully opaque triangle meshes.
    Opaque,
    /// Visible, partly transparent triangle meshes, blended back to front.
    Transparent,
}

/// The item takes part in the pass.
pub open spec fn in_pass(it: DrawItem, pass: DrawPass) -> bool {
    match pass {
        DrawPass::Lines => it.topology == MeshTopology::Lines,
        DrawPass::Opaque => {
            &&& it.topology == MeshTopology::Triangles
            &&& it.material is Some
            &&& it.material->0.visible
            &&& !it.material->0.transparent
        },
        DrawPass::Transparent => {
            &&& it.topology == MeshTopology::Triangles
            &&& it.material is Some
            &&& it.material->0.visible
            &&& it.material->0.transparent
        },
    }
}

/// Two items of a pass can share one instanced draw call: same mesh and, for
/// triangles, equal materials.
pub open spec fn same_batch(a: DrawItem, b: DrawItem, pass: DrawPass) -> bool {
    &&& a.mesh == b.mesh
    &&& (pass != DrawPass::Lines ==> {
        &&& a.material is Some
        &&& b.material is Some
        &&& materials_eq(a.material->0, b.material->0)
    })
}

/// Whether the item takes part in the pass.
pub fn is_in_pass(it: &DrawItem, pass: DrawPass) -> (r: bool)
    ensures
        r == in_pass(*it, pass),
{
    match pass {
        DrawPass::Lines => match it.topology {
            MeshTopology::Lines => true,
            MeshTopology::Triangles => false,
        },
        DrawPass::Opaque => match (it.topology, it.material) {
            (MeshTopology::Triangles, Some(m)) => m.visible && !m.transparent,
            _ => false,
        },
        DrawPass::Transparent => match (it.topology, it.material) {
            (MeshTopology::Triangles, Some(m)) => m.visible && m.transparent,
            _ => false,
        },
    }
}

/// Whether two items of the pass can share one instanced draw call.
pub fn is_same_batch(a: &DrawItem, b: &DrawItem, pass: DrawPass) -> (r: bool)
    ensures
        r == same_batch(*a, *b, pass),
{
    if a.mesh != b.mesh {
        return false;
    }
    match pass {
        DrawPass::Lines => true,
        _ => match (&a.material, &b.material) {
            (Some(ma), Some(mb)) => materials_equal(ma, mb),
            _ => false,
        },
    }
}


/// Number of items among the first `n` that take part in `pass`.
pub open spec fn count_in_pass(items: Seq<DrawItem>, pass: DrawPass, n: int) -> nat
    decreases n,
{
    if n <= 0 {
        0
    } else {
        count_in_pass(items, pass, n - 1) + if in_pass(items[n - 1], pass) {
            1nat
        } else {
            0nat
        }
    }
}

/// `batches` groups the items `0..n` of `pass` the way the renderer does: items are
/// visited in order, each joins the first existing batch whose first item it can share a
/// draw call with, and otherwise opens a new batch at the end.
pub open spec fn first_fit_upto(
    items: Seq<DrawItem>,
    pass: DrawPass,
    batches: Seq<Vec<usize>>,
    n: int,
) -> bool {
    // batches are non-empty and list their items in increasing order
    &&& forall|j: int| 0 <= j < batches.len() ==> #[trigger] batches[j]@.len() > 0
    &&& forall|j: int, p: int, q: int|
        0 <= j < batches.len() && 0 <= p < q < batches[j]@.len() ==> #[trigger] batches[j]@[p]
            < #[trigger] batches[j]@[q]
    // only items of the pass that were visited
    &&& forall|j: int, p: int|
        0 <= j < batches.len() && 0 <= p < batches[j]@.len() ==> #[trigger] batches[j]@[p] < n
            && in_pass(items[batches[j]@[p] as int], pass)
    // batches appear in the order they were opened
    &&& forall|j1: int, j2: int|
        0 <= j1 < j2 < batches.len() ==> #[trigger] batches[j1]@[0] < #[trigger] batches[j2]@[0]
    // every visited item of the pass is in some batch
    &&& forall|k: int|
        0 <= k < n && #[trigger] in_pass(items[k], pass) ==> exists|j: int, p: int|
            0 <= j < batches.len() && 0 <= p < batches[j]@.len() && #[trigger] batches[j]@[p]
                == k
    // an item shares the draw call of its batch's first item ...
    &&& forall|j: int, p: int|
        0 <= j < batches.len() && 0 < p < batches[j]@.len() ==> same_batch(
            items[batches[j]@[0] as int],
            items[#[trigger] batches[j]@[p] as int],
            pass,
        )
    // ... and of no earlier batch's first item
    &&& forall|j: int, p: int, j2: int|
        0 <= j2 < j < batches.len() && 0 <= p < batches[j]@.len() ==> !same_batch(
            items[#[trigger] batches[j2]@[0] as int],
            items[#[trigger] batches[j]@[p] as int],
            pass,
        )
}

/// Groups the items of `pass` into instanced draw calls, first fit in item order.
pub fn first_fit_batches(items: &Vec<DrawItem>, pass: DrawPass) -> (batches: Vec<Vec<usize>>)
    ensures
        first_fit_upto(items@, pass, batches@, items@.len() as int),
        batches@.len() <= count_in_pass(items@, pass, items@.len() as int),
{
    let mut batches: Vec<Vec<usize>> = Vec::new();
    let mut i: usize = 0;
    while i < items.len()
        invariant
            i <= items@.len(),
            first_fit_upto(items@, pass, batches@, i as int),
            batches@.len() <= count_in_pass(items@, pass, i as int),
        decreases items@.len() - i,
    {
        if is_in_pass(&items[i], pass) {
            let mut j: usize = 0;
            let mut found = false;
            while j < batches.len() && !found
                invariant
                    j <= batches@.len(),
                    i < items@.len(),
                    first_fit_upto(items@, pass, batches@, i as int),
                    found ==> j < batches@.len() && same_batch(
                        items@[batches@[j as int]@[0] as int],
                        items@[i as int],
                        pass,
                    ),
                    forall|j2: int|
                        0 <= j2 < j ==> !same_batch(
                            items@[#[trigger] batches@[j2]@[0] as int],
                            items@[i as int],
                            pass,
                        ),
                decreases batches@.len() - j, if found { 0int } else { 1int },
            {
                let first = batches[j][0];
                if is_same_batch(&items[first], &items[i], pass) {
                    found = true;
                } else {
                    j = j + 1;
                }
            }
            let ghost old_batches = batches@;
            if found {
                batches[j].push(i);
                proof {
                    assert forall|jj: int| 0 <= jj < old_batches.len() && jj != j implies #[trigger] batches@[jj]@
                        == old_batches[jj]@ by {}
                    assert(batches@[j as int]@ == old_batches[j as int]@.push(i));
                    assert forall|k: int| 0 <= k <= i && #[trigger] in_pass(items@[k], pass) implies exists|jj: int, p: int|
                        0 <= jj < batches@.len() && 0 <= p < batches@[jj]@.len()
                            && #[trigger] batches@[jj]@[p] == k by {
                        if k == i {
                            let p = old_batches[j as int]@.len() as int;
                            assert(batches@[j as int]@[p] == k);
                        } else {
                            let (jj, p) = choose|jj: int, p: int|
                                0 <= jj < old_batches.len() && 0 <= p < old_batches[jj]@.len()
                                    && #[trigger] old_batches[jj]@[p] == k;
                            assert(batches@[jj]@[p] == k);
                        }
                    }
                }
            } else {
                let mut b: Vec<usize> = Vec::new();
                b.push(i);
                batches.push(b);
                proof {
                    assert forall|jj: int| 0 <= jj < old_batches.len() implies #[trigger] batches@[jj]@
                        == old_batches[jj]@ by {}
                    assert(batches@[old_batches.len() as int]@ == seq![i]);
                    assert forall|k: int| 0 <= k <= i && #[trigger] in_pass(items@[k], pass) implies exists|jj: int, p: int|
                        0 <= jj < batches@.len() && 0 <= p < batches@[jj]@.len()
                            && #[trigger] batches@[jj]@[p] == k by {
                        if k == i {
                            assert(batches@[old_batches.len() as int]@[0] == k);
                        } else {
                            let (jj, p) = choose|jj: int, p: int|
                                0 <= jj < old_batches.len() && 0 <= p < old_batches[jj]@.len()
                                    && #[trigger] old_batches[jj]@[p] == k;
                            assert(batches@[jj]@[p] == k);
                        }
                    }
                }
            }
        } else {
            proof {
                assert forall|k: int| 0 <= k <= i && #[trigger] in_pass(items@[k], pass) implies exists|jj: int, p: int|
                    0 <= jj < batches@.len() && 0 <= p < batches@[jj]@.len()
                        && #[trigger] batches@[jj]@[p] == k by {
                    assert(k < i);
                }
            }
        }
        i = i + 1;
    }
    batches
}


/// Item `a` is drawn before item `b` in the blended pass: it is farther away, or as far
/// and earlier in the world's order (the sort is stable).
pub open spec fn drawn_before(items: Seq<DrawItem>, a: usize, b: usize) -> bool {
    items[a as int].depth > items[b as int].depth || (items[a as int].depth
        == items[b as int].depth && a < b)
}

/// `order` lists exactly the blended items among `0..n`, farthest first.
pub open spec fn back_to_front_upto(items: Seq<DrawItem>, order: Seq<usize>, n: int) -> bool {
    &&& forall|p: int|
        0 <= p < order.len() ==> #[trigger] order[p] < n && in_pass(
            items[order[p] as int],
            DrawPass::Transparent,
        )
    &&& forall|p: int, q: int|
        0 <= p < q < order.len() ==> drawn_before(items, #[trigger] order[p], #[trigger] order[q])
    &&& forall|k: int|
        0 <= k < n && #[trigger] in_pass(items[k], DrawPass::Transparent) ==> order.contains(
            k as usize,
        )
}

/// The blended items sorted from the farthest to the nearest (painter's order); items at
/// the same distance keep the world's order.
pub fn back_to_front_order(items: &Vec<DrawItem>) -> (order: Vec<usize>)
    ensures
        back_to_front_upto(items@, order@, items@.len() as int),
        order@.len() == count_in_pass(items@, DrawPass::Transparent, items@.len() as int),
{
    let mut order: Vec<usize> = Vec::new();
    let mut i: usize = 0;
    while i < items.len()
        invariant
            i <= items@.len(),
            back_to_front_upto(items@, order@, i as int),
            order@.len() == count_in_pass(items@, DrawPass::Transparent, i as int),
        decreases items@.len() - i,
    {
        if is_in_pass(&items[i], DrawPass::Transparent) {
            let d = items[i].depth;
            let mut pos: usize = 0;
            while pos < order.len() && items[order[pos]].depth >= d
                invariant
                    pos <= order@.len(),
                    i < items@.len(),
                    d == items@[i as int].depth,
                    back_to_front_upto(items@, order@, i as int),
                    forall|p: int| 0 <= p < pos ==> items@[#[trigger] order@[p] as int].depth >= d,
                decreases order@.len() - pos,
            {
                pos = pos + 1;
            }
            let ghost old_order = order@;
            order.insert(pos, i);
            proof {
                assert(order@ == old_order.insert(pos as int, i));
                assert forall|p: int, q: int| 0 <= p < q < order@.len() implies drawn_before(
                    items@,
                    #[trigger] order@[p],
                    #[trigger] order@[q],
                ) by {
                    if p < pos && q < pos {
                        assert(order@[p] == old_order[p] && order@[q] == old_order[q]);
                    } else if p < pos && q == pos {
                        assert(order@[p] == old_order[p]);
                        assert(old_order[p] < i);
                    } else if p < pos && q > pos {
                        assert(order@[p] == old_order[p] && order@[q] == old_order[q - 1]);
                    } else if p == pos {
                        assert(order@[q] == old_order[q - 1]);
                        assert(old_order[q - 1] < i);
                        assert(items@[old_order[q - 1] as int].depth < d) by {
                            assert(!(items@[old_order[pos as int] as int].depth >= d));
                            if q - 1 > pos {
                                assert(drawn_before(items@, old_order[pos as int], old_order[q - 1]));
                            }
                        }
                    } else {
                        assert(order@[p] == old_order[p - 1] && order@[q] == old_order[q - 1]);
                    }
                }
                assert forall|k: int| 0 <= k <= i && #[trigger] in_pass(items@[k], DrawPass::Transparent)
                    implies order@.contains(k as usize) by {
                    if k == i {
                        assert(order@[pos as int] == i);
                    } else {
                        let p = choose|p: int| 0 <= p < old_order.len() && old_order[p] == k as usize;
                        if p < pos {
                            assert(order@[p] == k as usize);
                        } else {
                            assert(order@[p + 1] == k as usize);
                        }
                    }
                }
                assert forall|p: int| 0 <= p < order@.len() implies #[trigger] order@[p] < i + 1
                    && in_pass(items@[order@[p] as int], DrawPass::Transparent) by {
                    if p < pos {
                        assert(order@[p] == old_order[p]);
                    } else if p > pos {
                        assert(order@[p] == old_order[p - 1]);
                    }
                }
            }
        } else {
            proof {
                assert forall|k: int| 0 <= k <= i && #[trigger] in_pass(items@[k], DrawPass::Transparent)
                    implies order@.contains(k as usize) by {
                    assert(k < i);
                }
            }
        }
        i = i + 1;
    }
    order
}

/// The items of `runs`, one run after another.
pub open spec fn concat_runs(runs: Seq<Vec<usize>>) -> Seq<usize>
    decreases runs.len(),
{
    if runs.len() == 0 {
        Seq::empty()
    } else {
        concat_runs(runs.drop_last()) + runs.last()@
    }
}

/// `runs` cuts `order` into maximal stretches of consecutive items that share the draw
/// call of the stretch's first item.
pub open spec fn maximal_runs(items: Seq<DrawItem>, order: Seq<usize>, runs: Seq<Vec<usize>>) -> bool {
    &&& forall|k: int| 0 <= k < runs.len() ==> #[trigger] runs[k]@.len() > 0
    &&& concat_runs(runs) == order
    &&& forall|k: int, p: int|
        0 <= k < runs.len() && 0 < p < runs[k]@.len() ==> same_batch(
            items[runs[k]@[0] as int],
            items[#[trigger] runs[k]@[p] as int],
            DrawPass::Transparent,
        )
    &&& forall|k: int|
        0 <= k < runs.len() - 1 ==> !same_batch(
            items[#[trigger] runs[k]@[0] as int],
            items[runs[k + 1]@[0] as int],
            DrawPass::Transparent,
        )
}

/// Cuts the painter's order into instanced draw calls: a call takes the next item and
/// every following item that shares its mesh and material, up to the first that does not.
pub fn consecutive_runs(items: &Vec<DrawItem>, order: &Vec<usize>) -> (runs: Vec<Vec<usize>>)
    requires
        forall|p: int| 0 <= p < order@.len() ==> #[trigger] order@[p] < items@.len(),
    ensures
        maximal_runs(items@, order@, runs@),
        runs@.len() <= order@.len(),
{
    let mut runs: Vec<Vec<usize>> = Vec::new();
    let mut p: usize = 0;
    assert(order@.subrange(0, 0) =~= Seq::<usize>::empty());
    assert(concat_runs(runs@) =~= Seq::<usize>::empty());
    while p < order.len()
        invariant
            p <= order@.len(),
            forall|q: int| 0 <= q < order@.len() ==> #[trigger] order@[q] < items@.len(),
            maximal_runs(items@, order@.subrange(0, p as int), runs@),
            runs@.len() <= p,
            forall|k: int, q: int|
                0 <= k < runs@.len() && 0 <= q < runs@[k]@.len() ==> #[trigger] runs@[k]@[q]
                    < items@.len(),
        decreases order@.len() - p,
    {
        let x = order[p];
        let ghost old_runs = runs@;
        let n = runs.len();
        let joins = if n == 0 {
            false
        } else {
            let first = runs[n - 1][0];
            is_same_batch(&items[first], &items[x], DrawPass::Transparent)
        };
        if joins {
            runs[n - 1].push(x);
            proof {
                assert forall|k: int| 0 <= k < n - 1 implies #[trigger] runs@[k]@ == old_runs[k]@ by {}
                assert(runs@[n - 1]@ == old_runs[n - 1]@.push(x));
                assert(runs@.drop_last() =~= old_runs.drop_last());
                assert(concat_runs(runs@) == concat_runs(old_runs.drop_last()) + old_runs.last()@.push(x));
                assert(concat_runs(old_runs) == concat_runs(old_runs.drop_last()) + old_runs.last()@);
                assert(order@.subrange(0, p + 1) =~= order@.subrange(0, p as int).push(x));
                assert(concat_runs(runs@) =~= order@.subrange(0, p + 1));
            }
        } else {
            let mut r: Vec<usize> = Vec::new();
            r.push(x);
            runs.push(r);
            proof {
                assert(runs@.drop_last() =~= old_runs);
                assert(order@.subrange(0, p + 1) =~= order@.subrange(0, p as int).push(x));
                assert(concat_runs(runs@) =~= order@.subrange(0, p + 1));
            }
        }
        p = p + 1;
    }
    assert(order@.subrange(0, order@.len() as int) =~= order@);
    runs
}


/// No item is in two passes, so the three passes together hold at most `n` items.
pub proof fn lemma_passes_disjoint_count(items: Seq<DrawItem>, n: int)
    requires
        0 <= n <= items.len(),
    ensures
        count_in_pass(items, DrawPass::Lines, n) + count_in_pass(items, DrawPass::Opaque, n)
            + count_in_pass(items, DrawPass::Transparent, n) <= n,
    decreases n,
{
    if n > 0 {
        lemma_passes_disjoint_count(items, n - 1);
    }
}

/// Everything the renderer draws in one frame, pass by pass, as lists of item indices;
/// each inner list is one instanced draw call, drawn with the mesh and material of its
/// first item.
pub struct ScenePlan {
    /// Line meshes, batched by mesh.
    pub lines: Vec<Vec<usize>>,
    /// Opaque triangle meshes, batched by mesh and material.
    pub opaque: Vec<Vec<usize>>,
    /// The blended items, farthest first.
    pub transparent_order: Vec<usize>,
    /// Blended triangle meshes: runs of `transparent_order` sharing mesh and material.
    pub transparent: Vec<Vec<usize>>,
    /// One recorded draw per batch.
    pub stats: SceneRenderStats,
}

/// Plans the draw calls of a frame: lines first (vertex color, batched by mesh), then the
/// visible opaque triangles (batched by mesh and material), then the visible transparent
/// triangles from farthest to nearest, neighbours in that order sharing mesh and material
/// drawn together. Triangle meshes without a material, or with an invisible one, are not
/// drawn. The statistics count one draw per batch.
pub fn plan_mesh_draws(items: &Vec<DrawItem>) -> (plan: ScenePlan)
    requires
        items@.len() <= u32::MAX,
    ensures
        first_fit_upto(items@, DrawPass::Lines, plan.lines@, items@.len() as int),
        first_fit_upto(items@, DrawPass::Opaque, plan.opaque@, items@.len() as int),
        back_to_front_upto(items@, plan.transparent_order@, items@.len() as int),
        maximal_runs(items@, plan.transparent_order@, plan.transparent@),
        plan.stats.lines_drawn == plan.lines@.len(),
        plan.stats.opaque_triangles_drawn == plan.opaque@.len(),
        plan.stats.transparent_triangles_drawn == plan.transparent@.len(),
        plan.stats.wf(),
{
    let lines = first_fit_batches(items, DrawPass::Lines);
    let opaque = first_fit_batches(items, DrawPass::Opaque);
    let transparent_order = back_to_front_order(items);
    let transparent = consecutive_runs(items, &transparent_order);
    proof {
        lemma_passes_disjoint_count(items@, items@.len() as int);
    }
    let mut stats = SceneRenderStats::new();
    let mut k: usize = 0;
    while k < lines.len()
        invariant
            k <= lines@.len(),
            lines@.len() + opaque@.len() + transparent@.len() <= u32::MAX,
            stats.lines_drawn == k,
            stats.opaque_triangles_drawn == 0,
            stats.transparent_triangles_drawn == 0,
            stats.wf(),
        decreases lines@.len() - k,
    {
        stats.record_line_draw();
        k = k + 1;
    }
    k = 0;
    while k < opaque.len()
        invariant
            k <= opaque@.len(),
            lines@.len() + opaque@.len() + transparent@.len() <= u32::MAX,
            stats.lines_drawn == lines@.len(),
            stats.opaque_triangles_drawn == k,
            stats.transparent_triangles_drawn == 0,
            stats.wf(),
        decreases opaque@.len() - k,
    {
        stats.record_triangle_draw(false);
        k = k + 1;
    }
    k = 0;
    while k < transparent.len()
        invariant
            k <= transparent@.len(),
            lines@.len() + opaque@.len() + transparent@.len() <= u32::MAX,
            stats.lines_drawn == lines@.len(),
            stats.opaque_triangles_drawn == opaque@.len(),
            stats.transparent_triangles_drawn == k,
            stats.wf(),
        decreases transparent@.len() - k,
    {
        stats.record_triangle_draw(true);
        k = k + 1;
    }
    ScenePlan { lines, opaque, transparent_order, transparent, stats }
}


/// In a first-fit grouping every item of the pass is drawn exactly once: it occurs in one
/// batch, at one position, and items outside the pass occur nowhere.
pub proof fn lemma_first_fit_draws_each_item_once(
    items: Seq<DrawItem>,
    pass: DrawPass,
    batches: Seq<Vec<usize>>,
    k: int,
)
    requires
        first_fit_upto(items, pass, batches, items.len() as int),
        0 <= k < items.len(),
    ensures
        in_pass(items[k], pass) <==> exists|j: int, p: int|
            0 <= j < batches.len() && 0 <= p < batches[j]@.len() && #[trigger] batches[j]@[p]
                == k,
        forall|j1: int, p1: int, j2: int, p2: int|
            0 <= j1 < batches.len() && 0 <= p1 < batches[j1]@.len() && 0 <= j2 < batches.len()
                && 0 <= p2 < batches[j2]@.len() && #[trigger] batches[j1]@[p1] == k
                && #[trigger] batches[j2]@[p2] == k ==> j1 == j2 && p1 == p2,
{
    assert forall|j1: int, p1: int, j2: int, p2: int|
        0 <= j1 < batches.len() && 0 <= p1 < batches[j1]@.len() && 0 <= j2 < batches.len()
            && 0 <= p2 < batches[j2]@.len() && #[trigger] batches[j1]@[p1] == k
            && #[trigger] batches[j2]@[p2] == k implies j1 == j2 && p1 == p2 by {
        if j1 < j2 {
            // k would share the draw call of batch j1's first item, yet it may not
            if p1 > 0 {
                assert(same_batch(items[batches[j1]@[0] as int], items[batches[j1]@[p1] as int], pass));
                assert(!same_batch(items[batches[j1]@[0] as int], items[batches[j2]@[p2] as int], pass));
            } else {
                assert(batches[j1]@[0] < batches[j2]@[0]);
                if p2 > 0 {
                    assert(batches[j2]@[0] < batches[j2]@[p2]);
                }
            }
        } else if j2 < j1 {
            if p2 > 0 {
                assert(same_batch(items[batches[j2]@[0] as int], items[batches[j2]@[p2] as int], pass));
                assert(!same_batch(items[batches[j2]@[0] as int], items[batches[j1]@[p1] as int], pass));
            } else {
                assert(batches[j2]@[0] < batches[j1]@[0]);
                if p1 > 0 {
                    assert(batches[j1]@[0] < batches[j1]@[p1]);
                }
            }
        } else {
            if p1 < p2 {
                assert(batches[j1]@[p1] < batches[j1]@[p2]);
            } else if p2 < p1 {
                assert(batches[j1]@[p2] < batches[j1]@[p1]);
            }
        }
    }
}

/// The frame's statistics add up: the total number of draw calls is the number of line,
/// opaque and blended batches together.
pub proof fn lemma_plan_counts_every_batch(items: Seq<DrawItem>, plan: ScenePlan)
    requires
        plan.stats.lines_drawn == plan.lines@.len(),
        plan.stats.opaque_triangles_drawn == plan.opaque@.len(),
        plan.stats.transparent_triangles_drawn == plan.transparent@.len(),
        plan.stats.wf(),
    ensures
        plan.stats.draw_calls == plan.lines@.len() + plan.opaque@.len() + plan.transparent@.len(),
{
}


/// Words `x` and `y` hold the same float value: the same bits, or both a zero.
pub open spec fn same_float_bits(x: u32, y: u32) -> bool {
    x == y || ((x & 0x7fff_ffffu32) == 0 && (y & 0x7fff_ffffu32) == 0)
}

/// Materials that differ in any one field, as floats, are different materials: if word
/// `i` of the two keys holds two different bit patterns that are not both zeros, the
/// materials are not equal (whichever field it is: color, opacity or lighting).
pub proof fn lemma_differing_word_not_equal(a: MaterialKey, b: MaterialKey, i: int)
    requires
        0 <= i < 10,
        !same_float_bits(a.words@[i], b.words@[i]),
    ensures
        !materials_eq(a, b),
{
    assert(!f32_bits_eq(a.words@[i], b.words@[i]));
}

/// Materials with the same bits in every field, none of them a NaN, are equal.
pub proof fn lemma_identical_words_equal(a: MaterialKey, b: MaterialKey)
    requires
        a.words@ == b.words@,
        forall|i: int|
            0 <= i < 10 ==> (a.words@[i] & 0x7f80_0000u32) != 0x7f80_0000u32 || (a.words@[i]
                & 0x007f_ffffu32) == 0,
    ensures
        materials_eq(a, b),
{
    assert forall|i: int| 0 <= i < 10 implies #[trigger] f32_bits_eq(a.words@[i], b.words@[i]) by {
        assert((a.words@[i] & 0x7f80_0000u32) != 0x7f80_0000u32 || (a.words@[i] & 0x007f_ffffu32)
            == 0);
    }
}

/// Two items that may share a draw call have the same mesh and, for triangles, materials
/// whose fields are all the same floats.
pub open spec fn shares_mesh_and_material(a: DrawItem, b: DrawItem, pass: DrawPass) -> bool {
    &&& a.mesh == b.mesh
    &&& pass != DrawPass::Lines ==> {
        &&& a.material is Some
        &&& b.material is Some
        &&& forall|i: int|
            0 <= i < 10 ==> #[trigger] same_float_bits(
                a.material->0.words@[i],
                b.material->0.words@[i],
            )
    }
}

proof fn lemma_same_batch_shares(a: DrawItem, b: DrawItem, pass: DrawPass)
    requires
        same_batch(a, b, pass),
    ensures
        shares_mesh_and_material(a, b, pass),
{
    if pass != DrawPass::Lines {
        assert forall|i: int| 0 <= i < 10 implies #[trigger] same_float_bits(
            a.material->0.words@[i],
            b.material->0.words@[i],
        ) by {
            assert(f32_bits_eq(a.material->0.words@[i], b.material->0.words@[i]));
        }
    }
}

/// Every item of a first-fit batch is drawn with the batch's mesh and material: it has
/// the same mesh as the batch's first item and, for triangles, a material whose fields
/// are the same floats.
pub proof fn lemma_batch_items_share_mesh_and_material(
    items: Seq<DrawItem>,
    pass: DrawPass,
    batches: Seq<Vec<usize>>,
    j: int,
    p: int,
)
    requires
        first_fit_upto(items, pass, batches, items.len() as int),
        0 <= j < batches.len(),
        0 <= p < batches[j]@.len(),
    ensures
        shares_mesh_and_material(items[batches[j]@[0] as int], items[batches[j]@[p] as int], pass),
{
    if p > 0 {
        lemma_same_batch_shares(items[batches[j]@[0] as int], items[batches[j]@[p] as int], pass);
    } else {
        let a = items[batches[j]@[0] as int];
        assert(in_pass(a, pass));
        if pass != DrawPass::Lines {
            assert forall|i: int| 0 <= i < 10 implies #[trigger] same_float_bits(
                a.material->0.words@[i],
                a.material->0.words@[i],
            ) by {}
        }
    }
}

/// Every item of a blended draw call is drawn with the call's mesh and material: it has
/// the same mesh as the call's first item and a material whose fields are the same floats.
pub proof fn lemma_run_items_share_mesh_and_material(
    items: Seq<DrawItem>,
    order: Seq<usize>,
    runs: Seq<Vec<usize>>,
    k: int,
    p: int,
)
    requires
        back_to_front_upto(items, order, items.len() as int),
        maximal_runs(items, order, runs),
        0 <= k < runs.len(),
        0 <= p < runs[k]@.len(),
    ensures
        shares_mesh_and_material(
            items[runs[k]@[0] as int],
            items[runs[k]@[p] as int],
            DrawPass::Transparent,
        ),
{
    if p > 0 {
        lemma_same_batch_shares(items[runs[k]@[0] as int], items[runs[k]@[p] as int], DrawPass::Transparent);
    } else {
        lemma_concat_runs_index(runs, k, 0);
        let x = order[run_offset(runs, k)];
        assert(in_pass(items[x as int], DrawPass::Transparent));
        let a = items[runs[k]@[0] as int];
        assert forall|i: int| 0 <= i < 10 implies #[trigger] same_float_bits(
            a.material->0.words@[i],
            a.material->0.words@[i],
        ) by {}
    }
}

/// Position in `concat_runs(runs)` at which run `k` starts.
pub open spec fn run_offset(runs: Seq<Vec<usize>>, k: int) -> int {
    concat_runs(runs.take(k)).len() as int
}

proof fn lemma_run_offset_step(runs: Seq<Vec<usize>>, k: int)
    requires
        0 <= k < runs.len(),
    ensures
        run_offset(runs, k + 1) == run_offset(runs, k) + runs[k]@.len(),
{
    assert(runs.take(k + 1).drop_last() =~= runs.take(k));
    assert(runs.take(k + 1).last() == runs[k]);
}

proof fn lemma_run_offset_monotone(runs: Seq<Vec<usize>>, k1: int, k2: int)
    requires
        0 <= k1 <= k2 <= runs.len(),
    ensures
        run_offset(runs, k1) <= run_offset(runs, k2),
        k1 < k2 ==> run_offset(runs, k1) + runs[k1]@.len() <= run_offset(runs, k2),
    decreases k2 - k1,
{
    if k1 < k2 {
        lemma_run_offset_step(runs, k1);
        lemma_run_offset_monotone(runs, k1 + 1, k2);
    }
}

proof fn lemma_concat_runs_index(runs: Seq<Vec<usize>>, k: int, p: int)
    requires
        0 <= k < runs.len(),
        0 <= p < runs[k]@.len(),
    ensures
        run_offset(runs, k) + p < concat_runs(runs).len(),
        concat_runs(runs)[run_offset(runs, k) + p] == runs[k]@[p],
    decreases runs.len(),
{
    let last = runs.len() - 1;
    if k == last {
        assert(runs.take(k) =~= runs.drop_last());
    } else {
        lemma_concat_runs_index(runs.drop_last(), k, p);
        assert(runs.drop_last().take(k) =~= runs.take(k));
    }
}

/// Blended draw calls go from far to near: every item of an earlier call is drawn before
/// (is at least as far as) every item of a later call.
pub proof fn lemma_blended_calls_back_to_front(
    items: Seq<DrawItem>,
    order: Seq<usize>,
    runs: Seq<Vec<usize>>,
    k1: int,
    p1: int,
    k2: int,
    p2: int,
)
    requires
        back_to_front_upto(items, order, items.len() as int),
        maximal_runs(items, order, runs),
        0 <= k1 < k2 < runs.len(),
        0 <= p1 < runs[k1]@.len(),
        0 <= p2 < runs[k2]@.len(),
    ensures
        drawn_before(items, runs[k1]@[p1], runs[k2]@[p2]),
        items[runs[k1]@[p1] as int].depth >= items[runs[k2]@[p2] as int].depth,
{
    lemma_concat_runs_index(runs, k1, p1);
    lemma_concat_runs_index(runs, k2, p2);
    lemma_run_offset_monotone(runs, k1, k2);
    let a = run_offset(runs, k1) + p1;
    let b = run_offset(runs, k2) + p2;
    assert(order[a] == runs[k1]@[p1]);
    assert(order[b] == runs[k2]@[p2]);
    assert(drawn_before(items, order[a], order[b]));
}

} // verus!
