//! Choice of the light sources passed to the lit shader in one frame.
use vstd::prelude::*;

verus! {

/// Most directional lights the shader takes per frame.
pub const MAX_DIRECTIONAL_LIGHTS: usize = 4;

/// Most point lights the shader takes per frame.
pub const MAX_POINT_LIGHTS: usize = 8;

/// The kind of a light source, as far as the choice of lights is concerned.
#[derive(Clone, Copy, Debug, PartialEq, Eq, Structural)]
pub enum LightCategory {
    /// Parallel rays; needs no position.
    Directional,
    /// Radiates from the position of its entity.
    Point,
}

/// One light entity, in the order the world yields it.
#[derive(Clone, Copy, Debug)]
pub struct LightSource {
    pub category: LightCategory,
    /// The entity also has a world position.
    pub has_position: bool,
}

/// A directional light can always be used.
pub open spec fn usable_directional(l: LightSource) -> bool {
    l.category == LightCategory::Directional
}

/// A point light can be used only where its entity has a position.
pub open spec fn usable_point(l: LightSource) -> bool {
    l.category == LightCategory::Point && l.has_position
}

/// Indices among `0..n` of the usable directional lights, in order.
pub open spec fn directional_indices(lights: Seq<LightSource>, n: int) -> Seq<usize>
    decreases n,
{
    if n <= 0 {
        Seq::empty()
    } else if usable_directional(lights[n - 1]) {
        directional_indices(lights, n - 1).push((n - 1) as usize)
    } else {
        directional_indices(lights, n - 1)
    }
}

/// Indices among `0..n` of the usable point lights, in order.
pub open spec fn point_indices(lights: Seq<LightSource>, n: int) -> Seq<usize>
    decreases n,
{
    if n <= 0 {
        Seq::empty()
    } else if usable_point(lights[n - 1]) {
        point_indices(lights, n - 1).push((n - 1) as usize)
    } else {
        point_indices(lights, n - 1)
    }
}

/// The first `cap` elements of `s`, or all of them if there are fewer.
pub open spec fn first_up_to(s: Seq<usize>, cap: int) -> Seq<usize> {
    if s.len() <= cap {
        s
    } else {
        s.take(cap)
    }
}

/// The lights chosen for a frame, as indices into the list of light entities.
pub struct LightSelection {
    pub directional: Vec<usize>,
    pub point: Vec<usize>,
}

proof fn lemma_first_up_to_push(s: Seq<usize>, x: usize, cap: int)
    requires
        cap >= 0,
    ensures
        first_up_to(s.push(x), cap) == if s.len() < cap {
            first_up_to(s, cap).push(x)
        } else {
            first_up_to(s, cap)
        },
{
    if s.len() < cap {
        assert(first_up_to(s.push(x), cap) == s.push(x));
    } else {
        assert(s.push(x).take(cap) =~= first_up_to(s, cap));
    }
}

/// Takes the first `MAX_DIRECTIONAL_LIGHTS` directional lights and the first
/// `MAX_POINT_LIGHTS` point lights that have a position, in the world's order; the rest
/// are ignored for the frame.
pub fn collect_lights(lights: &Vec<LightSource>) -> (sel: LightSelection)
    ensures
        sel.directional@ == first_up_to(
            directional_indices(lights@, lights@.len() as int),
            MAX_DIRECTIONAL_LIGHTS as int,
        ),
        sel.point@ == first_up_to(
            point_indices(lights@, lights@.len() as int),
            MAX_POINT_LIGHTS as int,
        ),
{
    let mut directional: Vec<usize> = Vec::new();
    let mut point: Vec<usize> = Vec::new();
    let mut i: usize = 0;
    while i < lights.len()
        invariant
            i <= lights@.len(),
            directional@ == first_up_to(directional_indices(lights@, i as int), 4),
            point@ == first_up_to(point_indices(lights@, i as int), 8),
        decreases lights@.len() - i,
    {
        let l = lights[i];
        proof {
            lemma_first_up_to_push(directional_indices(lights@, i as int), i, 4);
            lemma_first_up_to_push(point_indices(lights@, i as int), i, 8);
        }
        match l.category {
            LightCategory::Directional => {
                if directional.len() < MAX_DIRECTIONAL_LIGHTS {
                    directional.push(i);
                }
            },
            LightCategory::Point => {
                if point.len() < MAX_POINT_LIGHTS && l.has_position {
                    point.push(i);
                }
            },
        }
        i = i + 1;
    }
    LightSelection { directional, point }
}


proof fn lemma_directional_indices_usable(lights: Seq<LightSource>, n: int)
    requires
        0 <= n <= lights.len(),
        lights.len() <= usize::MAX,
    ensures
        forall|p: int|
            0 <= p < directional_indices(lights, n).len() ==> #[trigger] directional_indices(lights, n)[p] < n
                && usable_directional(lights[directional_indices(lights, n)[p] as int]),
        forall|p: int, q: int|
            0 <= p < q < directional_indices(lights, n).len() ==> #[trigger] directional_indices(
                lights,
                n,
            )[p] < #[trigger] directional_indices(lights, n)[q],
    decreases n,
{
    if n > 0 {
        lemma_directional_indices_usable(lights, n - 1);
        let prev = directional_indices(lights, n - 1);
        let cur = directional_indices(lights, n);
        if usable_directional(lights[n - 1]) {
            assert(cur == prev.push((n - 1) as usize));
        } else {
            assert(cur == prev);
        }
        assert forall|p: int| 0 <= p < prev.len() implies cur[p] == prev[p] by {}
        assert forall|p: int| 0 <= p < cur.len() implies #[trigger] cur[p] < n && usable_directional(lights[cur[p] as int]) by {
            if p < prev.len() {
                assert(cur[p] == prev[p]);
                let k = prev[p];
                assert(k < n - 1 && usable_directional(lights[k as int]));
            }
        }
        assert forall|p: int, q: int| 0 <= p < q < cur.len() implies #[trigger] cur[p]
            < #[trigger] cur[q] by {
            if q < prev.len() {
                assert(cur[p] == prev[p] && cur[q] == prev[q]);
            } else {
                assert(cur[p] == prev[p]);
            }
        }
    }
}

proof fn lemma_point_indices_usable(lights: Seq<LightSource>, n: int)
    requires
        0 <= n <= lights.len(),
        lights.len() <= usize::MAX,
    ensures
        forall|p: int|
            0 <= p < point_indices(lights, n).len() ==> #[trigger] point_indices(lights, n)[p] < n
                && usable_point(lights[point_indices(lights, n)[p] as int]),
        forall|p: int, q: int|
            0 <= p < q < point_indices(lights, n).len() ==> #[trigger] point_indices(lights, n)[p]
                < #[trigger] point_indices(lights, n)[q],
    decreases n,
{
    if n > 0 {
        lemma_point_indices_usable(lights, n - 1);
        let prev = point_indices(lights, n - 1);
        let cur = point_indices(lights, n);
        if usable_point(lights[n - 1]) {
            assert(cur == prev.push((n - 1) as usize));
        } else {
            assert(cur == prev);
        }
        assert forall|p: int| 0 <= p < prev.len() implies cur[p] == prev[p] by {}
        assert forall|p: int| 0 <= p < cur.len() implies #[trigger] cur[p] < n && usable_point(lights[cur[p] as int]) by {
            if p < prev.len() {
                assert(cur[p] == prev[p]);
                let k = prev[p];
                assert(k < n - 1 && usable_point(lights[k as int]));
            }
        }
        assert forall|p: int, q: int| 0 <= p < q < cur.len() implies #[trigger] cur[p]
            < #[trigger] cur[q] by {
            if q < prev.len() {
                assert(cur[p] == prev[p] && cur[q] == prev[q]);
            } else {
                assert(cur[p] == prev[p]);
            }
        }
    }
}

/// The shader never receives more lights than its arrays hold, each chosen light is of
/// the right kind (a point light has a position), and no light is chosen twice.
pub proof fn lemma_selected_lights_fit_shader(lights: Seq<LightSource>, sel: LightSelection)
    requires
        sel.directional@ == first_up_to(
            directional_indices(lights, lights.len() as int),
            MAX_DIRECTIONAL_LIGHTS as int,
        ),
        sel.point@ == first_up_to(point_indices(lights, lights.len() as int), MAX_POINT_LIGHTS as int),
        lights.len() <= usize::MAX,
    ensures
        sel.directional@.len() <= MAX_DIRECTIONAL_LIGHTS,
        sel.point@.len() <= MAX_POINT_LIGHTS,
        forall|p: int|
            0 <= p < sel.directional@.len() ==> #[trigger] sel.directional@[p] < lights.len()
                && usable_directional(lights[sel.directional@[p] as int]),
        forall|p: int|
            0 <= p < sel.point@.len() ==> #[trigger] sel.point@[p] < lights.len() && usable_point(
                lights[sel.point@[p] as int],
            ),
        forall|p: int, q: int|
            0 <= p < q < sel.directional@.len() ==> #[trigger] sel.directional@[p]
                < #[trigger] sel.directional@[q],
        forall|p: int, q: int|
            0 <= p < q < sel.point@.len() ==> #[trigger] sel.point@[p] < #[trigger] sel.point@[q],
{
    let n = lights.len() as int;
    lemma_directional_indices_usable(lights, n);
    lemma_point_indices_usable(lights, n);
    let d = directional_indices(lights, n);
    let pt = point_indices(lights, n);
    assert forall|p: int| 0 <= p < sel.directional@.len() implies #[trigger] sel.directional@[p]
        < lights.len() && usable_directional(lights[sel.directional@[p] as int]) by {
        assert(sel.directional@[p] == d[p]);
    }
    assert forall|p: int| 0 <= p < sel.point@.len() implies #[trigger] sel.point@[p] < lights.len()
        && usable_point(lights[sel.point@[p] as int]) by {
        assert(sel.point@[p] == pt[p]);
    }
    assert forall|p: int, q: int| 0 <= p < q < sel.directional@.len() implies #[trigger] sel.directional@[p]
        < #[trigger] sel.directional@[q] by {
        assert(sel.directional@[p] == d[p] && sel.directional@[q] == d[q]);
    }
    assert forall|p: int, q: int| 0 <= p < q < sel.point@.len() implies #[trigger] sel.point@[p]
        < #[trigger] sel.point@[q] by {
        assert(sel.point@[p] == pt[p] && sel.point@[q] == pt[q]);
    }
}

} // verus!
