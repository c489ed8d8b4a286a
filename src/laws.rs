use std::rc::Rc;
use vstd::prelude::*;

use crate::mesh::{Mesh, MeshRenderer};
use crate::renderer::{
    distinct_ids, entities_cmds, entity_cmds, first_main, lemma_distinct_ids_contains, members,
    shader_ids, DefaultOpenGlRenderer, RenderCommand,
};

verus! {

/// How many program binds `s` holds.
pub open spec fn count_binds(s: Seq<RenderCommand>) -> nat
    decreases s.len(),
{
    if s.len() == 0 {
        0
    } else {
        count_binds(s.drop_last()) + if s.last() is UseProgram {
            1nat
        } else {
            0nat
        }
    }
}

/// How many draw calls `s` holds.
pub open spec fn count_draws(s: Seq<RenderCommand>) -> nat
    decreases s.len(),
{
    if s.len() == 0 {
        0
    } else {
        count_draws(s.drop_last()) + if s.last() is DrawElements {
            1nat
        } else {
            0nat
        }
    }
}

/// Every camera-uniform command of `s` reads the camera at index `camera`.
pub open spec fn camera_only(s: Seq<RenderCommand>, camera: usize) -> bool {
    forall|i: int|
        0 <= i < s.len() && (#[trigger] s[i]) is SetCameraUniforms ==> s[i]->camera == camera
}

/// The number of drawables that the groups `gids` hold between them.
pub open spec fn group_sizes(s: Seq<u32>, gids: Seq<u32>) -> nat
    decreases gids.len(),
{
    if gids.len() == 0 {
        0
    } else {
        group_sizes(s, gids.drop_last()) + members(s, gids.last()).len()
    }
}

proof fn lemma_counts_add(a: Seq<RenderCommand>, b: Seq<RenderCommand>)
    ensures
        count_binds(a + b) == count_binds(a) + count_binds(b),
        count_draws(a + b) == count_draws(a) + count_draws(b),
    decreases b.len(),
{
    if b.len() == 0 {
        assert(a + b =~= a);
    } else {
        lemma_counts_add(a, b.drop_last());
        assert((a + b).drop_last() =~= a + b.drop_last());
        assert((a + b).last() == b.last());
    }
}

proof fn lemma_counts_entities(drawables: Seq<MeshRenderer>, ms: Seq<usize>)
    ensures
        count_binds(entities_cmds(drawables, ms)) == 0,
        count_draws(entities_cmds(drawables, ms)) == ms.len(),
    decreases ms.len(),
{
    if ms.len() > 0 {
        let e = entity_cmds(drawables, ms.last());
        lemma_counts_entities(drawables, ms.drop_last());
        lemma_counts_add(entities_cmds(drawables, ms.drop_last()), e);
        assert(e.drop_last().drop_last().drop_last() =~= Seq::<RenderCommand>::empty());
        reveal_with_fuel(count_binds, 4);
        reveal_with_fuel(count_draws, 4);
        assert(count_binds(e) == 0);
        assert(count_draws(e) == 1);
    }
}

proof fn lemma_camera_only_entities(drawables: Seq<MeshRenderer>, ms: Seq<usize>, camera: usize)
    ensures
        camera_only(entities_cmds(drawables, ms), camera),
    decreases ms.len(),
{
    if ms.len() > 0 {
        lemma_camera_only_entities(drawables, ms.drop_last(), camera);
        let a = entities_cmds(drawables, ms.drop_last());
        let e = entity_cmds(drawables, ms.last());
        assert forall|i: int|
            0 <= i < (a + e).len() && (#[trigger] (a + e)[i]) is SetCameraUniforms implies (a
                + e)[i]->camera == camera by {
            if i < a.len() {
                assert((a + e)[i] == a[i]);
            } else {
                assert((a + e)[i] == e[i - a.len()]);
            }
        }
    }
}

proof fn lemma_batches(
    r: &DefaultOpenGlRenderer,
    camera: usize,
    drawables: Seq<MeshRenderer>,
    gids: Seq<u32>,
)
    ensures
        count_binds(r.batches_cmds(camera, drawables, gids)) == gids.len(),
        count_draws(r.batches_cmds(camera, drawables, gids)) == group_sizes(
            shader_ids(drawables),
            gids,
        ),
        camera_only(r.batches_cmds(camera, drawables, gids), camera),
    decreases gids.len(),
{
    if gids.len() > 0 {
        let id = gids.last();
        let ms = members(shader_ids(drawables), id);
        let head = seq![
            RenderCommand::UseProgram { program: r.resolve_spec(id).spec_id() },
            RenderCommand::SetCameraUniforms { camera },
        ];
        let ents = entities_cmds(drawables, ms);
        let rest = r.batches_cmds(camera, drawables, gids.drop_last());
        lemma_batches(r, camera, drawables, gids.drop_last());
        lemma_counts_entities(drawables, ms);
        lemma_camera_only_entities(drawables, ms, camera);
        lemma_counts_add(head, ents);
        lemma_counts_add(rest, head + ents);
        assert(head.drop_last().drop_last() =~= Seq::<RenderCommand>::empty());
        reveal_with_fuel(count_binds, 3);
        reveal_with_fuel(count_draws, 3);
        assert(count_binds(head) == 1);
        assert(count_draws(head) == 0);
        let all = rest + (head + ents);
        assert forall|i: int|
            0 <= i < all.len() && (#[trigger] all[i]) is SetCameraUniforms implies all[i]->camera
            == camera by {
            if i < rest.len() {
                assert(all[i] == rest[i]);
            } else if i < rest.len() + 2 {
                assert(all[i] == head[i - rest.len()]);
            } else {
                assert(all[i] == ents[i - rest.len() - 2]);
            }
        }
    }
}

proof fn lemma_members_push(s: Seq<u32>, x: u32, g: u32)
    ensures
        members(s.push(x), g).len() == members(s, g).len() + if g == x {
            1nat
        } else {
            0nat
        },
{
    assert(s.push(x).drop_last() =~= s);
}

proof fn lemma_group_sizes_push(s: Seq<u32>, x: u32, gids: Seq<u32>)
    requires
        gids.no_duplicates(),
    ensures
        group_sizes(s.push(x), gids) == group_sizes(s, gids) + if gids.contains(x) {
            1nat
        } else {
            0nat
        },
    decreases gids.len(),
{
    if gids.len() > 0 {
        let t = gids.drop_last();
        assert(t.no_duplicates());
        lemma_group_sizes_push(s, x, t);
        lemma_members_push(s, x, gids.last());
        if t.contains(x) {
            let k = choose|k: int| 0 <= k < t.len() && t[k] == x;
            assert(gids[k] == x);
            assert(gids.contains(x));
            assert(gids.last() != x);
        } else if gids.last() == x {
            assert(gids[gids.len() - 1] == x);
        } else {
            assert(!gids.contains(x)) by {
                if gids.contains(x) {
                    let k = choose|k: int| 0 <= k < gids.len() && gids[k] == x;
                    assert(t[k] == x);
                }
            }
        }
    }
}

proof fn lemma_group_sizes_empty(gids: Seq<u32>)
    ensures
        group_sizes(Seq::<u32>::empty(), gids) == 0,
    decreases gids.len(),
{
    if gids.len() > 0 {
        lemma_group_sizes_empty(gids.drop_last());
    }
}

proof fn lemma_group_sizes_cover(s: Seq<u32>, gids: Seq<u32>)
    requires
        gids.no_duplicates(),
        forall|i: int| 0 <= i < s.len() ==> gids.contains(#[trigger] s[i]),
    ensures
        group_sizes(s, gids) == s.len(),
    decreases s.len(),
{
    if s.len() == 0 {
        assert(s =~= Seq::<u32>::empty());
        lemma_group_sizes_empty(gids);
    } else {
        let t = s.drop_last();
        assert forall|i: int| 0 <= i < t.len() implies gids.contains(#[trigger] t[i]) by {
            assert(t[i] == s[i]);
        }
        lemma_group_sizes_cover(t, gids);
        assert(gids.contains(s[s.len() - 1]));
        lemma_group_sizes_push(t, s.last(), gids);
        assert(t.push(s.last()) =~= s);
    }
}

proof fn lemma_distinct_ids_no_duplicates(s: Seq<u32>)
    ensures
        distinct_ids(s).no_duplicates(),
    decreases s.len(),
{
    if s.len() > 0 {
        lemma_distinct_ids_no_duplicates(s.drop_last());
        let p = distinct_ids(s.drop_last());
        if !p.contains(s.last()) {
            let q = p.push(s.last());
            assert forall|i: int, j: int| 0 <= i < q.len() && 0 <= j < q.len() && i != j implies q[i]
                != q[j] by {
                if i < p.len() && j < p.len() {
                    assert(q[i] == p[i] && q[j] == p[j]);
                } else if i < p.len() {
                    assert(q[i] == p[i]);
                } else if j < p.len() {
                    assert(q[j] == p[j]);
                }
            }
        }
    }
}

/// An identifier that nothing was registered under resolves to the fallback
/// program: resolution never fails.
pub proof fn lemma_fallback_totality(r: &DefaultOpenGlRenderer, id: u32)
    requires
        !r.programs().contains_key(id),
    ensures
        r.resolve_spec(id) == r.fallback(),
{
}

/// With a main camera, a frame binds a program exactly once per distinct
/// shader identifier among the drawables, and issues exactly one draw call
/// per drawable; every draw of a batch belongs to a drawable whose shader
/// identifier is the batch's own.
pub proof fn lemma_batching(
    r: &DefaultOpenGlRenderer,
    cameras: Seq<bool>,
    drawables: Seq<MeshRenderer>,
)
    requires
        first_main(cameras) is Some,
        drawables.len() <= usize::MAX,
    ensures
        count_binds(r.frame_spec(cameras, drawables)) == distinct_ids(
            shader_ids(drawables),
        ).len(),
        count_draws(r.frame_spec(cameras, drawables)) == drawables.len(),
        forall|id: u32, k: int|
            0 <= k < members(shader_ids(drawables), id).len() ==> {
                let j = #[trigger] members(shader_ids(drawables), id)[k];
                &&& j < drawables.len()
                &&& drawables[j as int].spec_shader_id() == id
            },
{
    let c = first_main(cameras)->Some_0;
    let s = shader_ids(drawables);
    let gids = distinct_ids(s);
    lemma_batches(r, c as usize, drawables, gids);
    lemma_distinct_ids_no_duplicates(s);
    lemma_distinct_ids_contains(s);
    assert forall|i: int| 0 <= i < s.len() implies gids.contains(#[trigger] s[i]) by {
        assert(s.contains(s[i]));
    }
    lemma_group_sizes_cover(s, gids);
    assert forall|id: u32, k: int| 0 <= k < members(s, id).len() implies {
        let j = #[trigger] members(s, id)[k];
        &&& j < drawables.len()
        &&& drawables[j as int].spec_shader_id() == id
    } by {
        lemma_members_positions(s, id);
    }
}

proof fn lemma_members_positions(s: Seq<u32>, id: u32)
    requires
        s.len() <= usize::MAX,
    ensures
        forall|k: int|
            0 <= k < members(s, id).len() ==> {
                let j = #[trigger] members(s, id)[k];
                j < s.len() && s[j as int] == id
            },
    decreases s.len(),
{
    if s.len() > 0 {
        let t = s.drop_last();
        lemma_members_positions(t, id);
        assert forall|k: int| 0 <= k < members(s, id).len() implies {
            let j = #[trigger] members(s, id)[k];
            j < s.len() && s[j as int] == id
        } by {
            if k < members(t, id).len() {
                assert(members(s, id)[k] == members(t, id)[k]);
                assert(t[members(t, id)[k] as int] == s[members(t, id)[k] as int]);
            } else {
                assert(s.last() == id);
                assert(members(s, id) == members(t, id).push((s.len() - 1) as usize));
                assert(members(s, id)[k] == (s.len() - 1) as usize);
            }
        }
    }
}

/// A frame draws from one camera only: with no main camera it is empty, and
/// otherwise every camera-uniform command in it reads the first main camera.
pub proof fn lemma_main_camera_exclusive(
    r: &DefaultOpenGlRenderer,
    cameras: Seq<bool>,
    drawables: Seq<MeshRenderer>,
)
    ensures
        (forall|k: int| 0 <= k < cameras.len() ==> !cameras[k]) ==> r.frame_spec(
            cameras,
            drawables,
        ) == Seq::<RenderCommand>::empty(),
        first_main(cameras) matches Some(c) ==> camera_only(
            r.frame_spec(cameras, drawables),
            c as usize,
        ),
{
    if first_main(cameras) is Some {
        let c = first_main(cameras)->Some_0;
        let gids = distinct_ids(shader_ids(drawables));
        lemma_batches(r, c as usize, drawables, gids);
        let i = choose|i: int| crate::renderer::is_first_main(cameras, i);
        assert(cameras[i]);
    }
}

/// Two drawables built over one shared mesh draw with the same vertex array
/// and the same index count.
pub proof fn lemma_shared_geometry(
    mesh: Rc<Mesh>,
    drawables: Seq<MeshRenderer>,
    i: usize,
    j: usize,
)
    requires
        i < drawables.len(),
        j < drawables.len(),
        drawables[i as int].spec_mesh() == *mesh,
        drawables[j as int].spec_mesh() == *mesh,
    ensures
        entity_cmds(drawables, i)[1] == (RenderCommand::BindVertexArray { vao: mesh.spec_vao() }),
        entity_cmds(drawables, j)[1] == entity_cmds(drawables, i)[1],
        entity_cmds(drawables, i)[2] == (RenderCommand::DrawElements {
            count: mesh.spec_triangles_len(),
        }),
        entity_cmds(drawables, j)[2] == entity_cmds(drawables, i)[2],
{
}

} // verus!
