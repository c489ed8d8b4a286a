use std::collections::HashMap;
use vstd::prelude::*;

use crate::mesh::MeshRenderer;
use crate::shaders::ShaderProgram;

verus! {

broadcast use vstd::std_specs::hash::group_hash_axioms;

/// One step of GPU work in a frame, as the graphics layer performs it.
#[derive(Clone, Copy, Debug, PartialEq, Eq, Structural)]
pub enum RenderCommand {
    /// Make the program with this identifier the current one.
    UseProgram { program: u32 },
    /// Set the camera-scoped uniforms (camera world position and projection
    /// matrix) of the current program from the camera at this index.
    SetCameraUniforms { camera: usize },
    /// Set the model-space uniform of the current program from the transform
    /// of the drawable at this index.
    SetModelUniform { entity: usize },
    /// Bind this vertex-array object.
    BindVertexArray { vao: u32 },
    /// Issue an indexed triangle draw of this many indices.
    DrawElements { count: u32 },
}

/// The index of the first camera flagged as main, if any.
pub open spec fn is_first_main(cameras: Seq<bool>, i: int) -> bool {
    &&& 0 <= i < cameras.len()
    &&& cameras[i]
    &&& forall|k: int| 0 <= k < i ==> !cameras[k]
}

pub open spec fn first_main(cameras: Seq<bool>) -> Option<int> {
    if exists|i: int| is_first_main(cameras, i) {
        Some(choose|i: int| is_first_main(cameras, i))
    } else {
        None
    }
}

/// The shader identifiers that the drawables ask for, in scene order.
pub open spec fn shader_ids(drawables: Seq<MeshRenderer>) -> Seq<u32> {
    drawables.map_values(|d: MeshRenderer| d.spec_shader_id())
}

/// The distinct values of `s`, in order of first appearance.
pub open spec fn distinct_ids(s: Seq<u32>) -> Seq<u32>
    decreases s.len(),
{
    if s.len() == 0 {
        seq![]
    } else {
        let p = distinct_ids(s.drop_last());
        if p.contains(s.last()) {
            p
        } else {
            p.push(s.last())
        }
    }
}

/// The positions in `s` that hold `id`, in increasing order.
pub open spec fn members(s: Seq<u32>, id: u32) -> Seq<usize>
    decreases s.len(),
{
    if s.len() == 0 {
        seq![]
    } else {
        let p = members(s.drop_last(), id);
        if s.last() == id {
            p.push((s.len() - 1) as usize)
        } else {
            p
        }
    }
}

/// Drawing one entity: its model uniform, its geometry, its draw call.
pub open spec fn entity_cmds(drawables: Seq<MeshRenderer>, j: usize) -> Seq<RenderCommand> {
    seq![
        RenderCommand::SetModelUniform { entity: j },
        RenderCommand::BindVertexArray { vao: drawables[j as int].spec_vao() },
        RenderCommand::DrawElements { count: drawables[j as int].spec_triangles_len() },
    ]
}

/// Drawing the entities at positions `ms`, in that order.
pub open spec fn entities_cmds(drawables: Seq<MeshRenderer>, ms: Seq<usize>) -> Seq<RenderCommand>
    decreases ms.len(),
{
    if ms.len() == 0 {
        seq![]
    } else {
        entities_cmds(drawables, ms.drop_last()) + entity_cmds(drawables, ms.last())
    }
}


/// The first camera flagged as main, scanning in scene order.
pub fn select_main_camera(cameras: &Vec<bool>) -> (r: Option<usize>)
    ensures
        match r {
            Some(i) => is_first_main(cameras@, i as int),
            None => forall|k: int| 0 <= k < cameras@.len() ==> !cameras@[k],
        },
        r matches Some(i) ==> first_main(cameras@) == Some(i as int),
        r is None <==> first_main(cameras@) is None,
{
    let mut i: usize = 0;
    while i < cameras.len()
        invariant
            i <= cameras@.len(),
            forall|k: int| 0 <= k < i ==> !cameras@[k],
        decreases cameras@.len() - i,
    {
        if cameras[i] {
            proof {
                lemma_first_main_unique(cameras@, i as int);
            }
            return Some(i);
        }
        i += 1;
    }
    None
}

proof fn lemma_first_main_unique(cameras: Seq<bool>, i: int)
    requires
        is_first_main(cameras, i),
    ensures
        first_main(cameras) == Some(i),
{
    let j = choose|j: int| is_first_main(cameras, j);
    assert(is_first_main(cameras, j));
    if j < i {
        assert(!cameras[j]);
    } else if i < j {
        assert(!cameras[i]);
    }
}

pub proof fn lemma_distinct_ids_contains(s: Seq<u32>)
    ensures
        forall|x: u32| #[trigger] distinct_ids(s).contains(x) <==> s.contains(x),
    decreases s.len(),
{
    if s.len() > 0 {
        let t = s.drop_last();
        lemma_distinct_ids_contains(t);
        assert forall|x: u32| #[trigger] s.contains(x) <==> (t.contains(x) || x == s.last()) by {
            if s.contains(x) {
                let k = choose|k: int| 0 <= k < s.len() && s[k] == x;
                if k < s.len() - 1 {
                    assert(t[k] == x);
                }
            }
            if t.contains(x) {
                let k = choose|k: int| 0 <= k < t.len() && t[k] == x;
                assert(s[k] == x);
            }
            if x == s.last() {
                assert(s[s.len() - 1] == x);
            }
        }
        let p = distinct_ids(t);
        if !p.contains(s.last()) {
            assert forall|x: u32| #[trigger] p.push(s.last()).contains(x) <==> (p.contains(x) || x
                == s.last()) by {
                if p.push(s.last()).contains(x) {
                    let k = choose|k: int| 0 <= k < p.len() + 1 && p.push(s.last())[k] == x;
                    if k < p.len() {
                        assert(p[k] == x);
                    }
                }
                if p.contains(x) {
                    let k = choose|k: int| 0 <= k < p.len() && p[k] == x;
                    assert(p.push(s.last())[k] == x);
                }
                if x == s.last() {
                    assert(p.push(s.last())[p.len() as int] == x);
                }
            }
        }
    }
}

/// The distinct shader identifiers of the drawables, in order of first
/// appearance.
fn distinct_shader_ids(drawables: &Vec<MeshRenderer>) -> (r: Vec<u32>)
    ensures
        r@ == distinct_ids(shader_ids(drawables@)),
{
    let ghost ids = shader_ids(drawables@);
    let mut r: Vec<u32> = Vec::new();
    let mut j: usize = 0;
    while j < drawables.len()
        invariant
            j <= drawables@.len(),
            ids == shader_ids(drawables@),
            r@ == distinct_ids(ids.subrange(0, j as int)),
        decreases drawables@.len() - j,
    {
        let id = drawables[j].shader_id();
        let ghost pre = ids.subrange(0, j as int);
        let ghost next = ids.subrange(0, j as int + 1);
        assert(next.drop_last() =~= pre);
        assert(next.last() == id);
        let mut found = false;
        let mut k: usize = 0;
        while k < r.len()
            invariant
                k <= r@.len(),
                found <==> exists|m: int| 0 <= m < k && r@[m] == id,
            decreases r@.len() - k,
        {
            if r[k] == id {
                found = true;
            }
            k += 1;
        }
        if !found {
            r.push(id);
        }
        j += 1;
    }
    assert(ids.subrange(0, drawables@.len() as int) =~= ids);
    r
}

/// A rendering backend: turns the scene's cameras (their main flags, in
/// scene order) and drawables into one frame of GPU work.
pub trait Renderer {
    spec fn spec_render(&self, cameras: Seq<bool>, drawables: Seq<MeshRenderer>) -> Seq<
        RenderCommand,
    >;

    fn render(&self, cameras: &Vec<bool>, drawables: &Vec<MeshRenderer>) -> (r: Vec<RenderCommand>)
        ensures
            r@ == self.spec_render(cameras@, drawables@),
    ;
}

pub struct DefaultOpenGlRenderer {
    shader_programs: HashMap<u32, ShaderProgram>,
    missing_shader_program: ShaderProgram,
}

impl DefaultOpenGlRenderer {
    /// The registered programs, by identifier.
    pub closed spec fn programs(&self) -> Map<u32, ShaderProgram> {
        self.shader_programs@
    }

    /// The program that stands in for any unregistered identifier.
    pub closed spec fn fallback(&self) -> ShaderProgram {
        self.missing_shader_program
    }

    /// Every registered program is filed under its own identifier.
    pub open spec fn wf(&self) -> bool {
        forall|k: u32| #[trigger]
            self.programs().contains_key(k) ==> self.programs()[k].spec_id() == k
    }

    /// The program that drawing with identifier `id` uses.
    pub open spec fn resolve_spec(&self, id: u32) -> ShaderProgram {
        if self.programs().contains_key(id) {
            self.programs()[id]
        } else {
            self.fallback()
        }
    }

    /// One batch: bind the group's program once, set the camera uniforms
    /// once, then draw every member of the group in scene order.
    pub open spec fn batch_cmds(&self, camera: usize, drawables: Seq<MeshRenderer>, id: u32) -> Seq<
        RenderCommand,
    > {
        seq![
            RenderCommand::UseProgram { program: self.resolve_spec(id).spec_id() },
            RenderCommand::SetCameraUniforms { camera },
        ] + entities_cmds(drawables, members(shader_ids(drawables), id))
    }

    /// The batches of the groups `gids`, in that order.
    pub open spec fn batches_cmds(
        &self,
        camera: usize,
        drawables: Seq<MeshRenderer>,
        gids: Seq<u32>,
    ) -> Seq<RenderCommand>
        decreases gids.len(),
    {
        if gids.len() == 0 {
            seq![]
        } else {
            self.batches_cmds(camera, drawables, gids.drop_last()) + self.batch_cmds(
                camera,
                drawables,
                gids.last(),
            )
        }
    }

    /// A whole frame: nothing without a main camera; otherwise, from the
    /// first main camera, one batch per distinct shader identifier, in order
    /// of first appearance among the drawables.
    pub open spec fn frame_spec(&self, cameras: Seq<bool>, drawables: Seq<MeshRenderer>) -> Seq<
        RenderCommand,
    > {
        match first_main(cameras) {
            None => seq![],
            Some(c) => self.batches_cmds(c as usize, drawables, distinct_ids(shader_ids(drawables))),
        }
    }

    /// A registry with no programs, standing on the given compiled fallback.
    pub fn new(missing_shader_program: ShaderProgram) -> (r: DefaultOpenGlRenderer)
        ensures
            r.wf(),
            r.programs() == Map::<u32, ShaderProgram>::empty(),
            r.fallback() == missing_shader_program,
    {
        DefaultOpenGlRenderer { shader_programs: HashMap::new(), missing_shader_program }
    }

    /// Files `program` under its own identifier; a program already filed
    /// there is replaced.
    pub fn register_shader_program(&mut self, program: ShaderProgram)
        requires
            old(self).wf(),
        ensures
            final(self).wf(),
            final(self).programs() == old(self).programs().insert(program.spec_id(), program),
            final(self).fallback() == old(self).fallback(),
    {
        let id = program.id();
        self.shader_programs.insert(id, program);
        assert forall|k: u32| #[trigger] self.programs().contains_key(k) implies self.programs()[
            k
        ].spec_id() == k by {
            if k != id {
                assert(old(self).programs().contains_key(k));
            }
        }
    }

    /// The registered program for `id`, or the fallback when none is.
    pub fn resolve(&self, id: u32) -> (r: &ShaderProgram)
        ensures
            *r == self.resolve_spec(id),
    {
        match self.shader_programs.get(&id) {
            Some(p) => p,
            None => &self.missing_shader_program,
        }
    }

    /// Appends the batch of group `id` to `out`.
    fn push_batch(
        &self,
        camera: usize,
        drawables: &Vec<MeshRenderer>,
        id: u32,
        out: &mut Vec<RenderCommand>,
    )
        ensures
            final(out)@ == old(out)@ + self.batch_cmds(camera, drawables@, id),
    {
        let ghost ids = shader_ids(drawables@);
        let program = self.resolve(id).id();
        out.push(RenderCommand::UseProgram { program });
        out.push(RenderCommand::SetCameraUniforms { camera });
        let ghost base = out@;
        assert(base =~= old(out)@ + seq![
            RenderCommand::UseProgram { program },
            RenderCommand::SetCameraUniforms { camera },
        ]);
        let mut j: usize = 0;
        while j < drawables.len()
            invariant
                j <= drawables@.len(),
                ids == shader_ids(drawables@),
                out@ == base + entities_cmds(drawables@, members(ids.subrange(0, j as int), id)),
            decreases drawables@.len() - j,
        {
            let ghost pre = ids.subrange(0, j as int);
            let ghost next = ids.subrange(0, j as int + 1);
            assert(next.drop_last() =~= pre);
            let d = &drawables[j];
            if d.shader_id() == id {
                let ghost ms = members(pre, id);
                assert(members(next, id) == ms.push(j));
                assert(ms.push(j).drop_last() =~= ms);
                out.push(RenderCommand::SetModelUniform { entity: j });
                out.push(RenderCommand::BindVertexArray { vao: d.vao() });
                out.push(RenderCommand::DrawElements { count: d.triangles_len() });
                assert(out@ =~= base + entities_cmds(drawables@, members(next, id)));
            } else {
                assert(members(next, id) == members(pre, id));
            }
            j += 1;
        }
        assert(ids.subrange(0, drawables@.len() as int) =~= ids);
        assert(out@ =~= old(out)@ + self.batch_cmds(camera, drawables@, id));
    }

    /// One frame of GPU work: from the first main camera, one batch per
    /// distinct shader identifier among the drawables; nothing when no camera
    /// is main.
    pub fn render_frame(&self, cameras: &Vec<bool>, drawables: &Vec<MeshRenderer>) -> (r: Vec<
        RenderCommand,
    >)
        ensures
            r@ == self.frame_spec(cameras@, drawables@),
    {
        let mut out: Vec<RenderCommand> = Vec::new();
        match select_main_camera(cameras) {
            None => out,
            Some(camera) => {
                let gids = distinct_shader_ids(drawables);
                let mut g: usize = 0;
                while g < gids.len()
                    invariant
                        g <= gids@.len(),
                        gids@ == distinct_ids(shader_ids(drawables@)),
                        out@ == self.batches_cmds(camera, drawables@, gids@.subrange(0, g as int)),
                    decreases gids@.len() - g,
                {
                    let ghost next = gids@.subrange(0, g as int + 1);
                    assert(next.drop_last() =~= gids@.subrange(0, g as int));
                    self.push_batch(camera, drawables, gids[g], &mut out);
                    g += 1;
                }
                assert(gids@.subrange(0, gids@.len() as int) =~= gids@);
                out
            },
        }
    }

    pub fn missing_shader_program(&self) -> (r: &ShaderProgram)
        ensures
            *r == self.fallback(),
    {
        &self.missing_shader_program
    }
}

impl Renderer for DefaultOpenGlRenderer {
    open spec fn spec_render(&self, cameras: Seq<bool>, drawables: Seq<MeshRenderer>) -> Seq<
        RenderCommand,
    > {
        self.frame_spec(cameras, drawables)
    }

    fn render(&self, cameras: &Vec<bool>, drawables: &Vec<MeshRenderer>) -> (r: Vec<RenderCommand>) {
        self.render_frame(cameras, drawables)
    }
}

} // verus!
