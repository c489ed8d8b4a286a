use std::rc::Rc;

use gear::{
    select_main_camera, DefaultOpenGlRenderer, Material, Mesh, MeshRenderer, MeshType,
    RenderCommand, Renderer, ShaderProgram,
};

fn drawable(shader: u32, vao: u32, count: u32) -> MeshRenderer {
    MeshRenderer::new(
        MeshType::Owned(Mesh::from_buffers(vao, count)),
        Material::from_program_id(shader),
    )
}

fn binds(cmds: &[RenderCommand]) -> Vec<u32> {
    cmds.iter()
        .filter_map(|c| match c {
            RenderCommand::UseProgram { program } => Some(*program),
            _ => None,
        })
        .collect()
}

fn draws(cmds: &[RenderCommand]) -> usize {
    cmds.iter()
        .filter(|c| matches!(c, RenderCommand::DrawElements { .. }))
        .count()
}

fn camera_binds(cmds: &[RenderCommand]) -> Vec<usize> {
    cmds.iter()
        .filter_map(|c| match c {
            RenderCommand::SetCameraUniforms { camera } => Some(*camera),
            _ => None,
        })
        .collect()
}

#[test]
fn fallback_for_unregistered_identifier() {
    let renderer = DefaultOpenGlRenderer::new(ShaderProgram::from_id(1));
    assert_eq!(renderer.resolve(42).id(), 1);
    assert_eq!(renderer.resolve(0).id(), 1);
    assert_eq!(*renderer.resolve(u32::MAX), *renderer.missing_shader_program());
}

#[test]
fn registered_program_is_resolved() {
    let mut renderer = DefaultOpenGlRenderer::new(ShaderProgram::from_id(1));
    renderer.register_shader_program(ShaderProgram::from_id(7));
    assert_eq!(renderer.resolve(7).id(), 7);
    assert_eq!(renderer.resolve(8).id(), 1);
}

#[test]
fn registering_twice_keeps_one_program() {
    let mut renderer = DefaultOpenGlRenderer::new(ShaderProgram::from_id(1));
    renderer.register_shader_program(ShaderProgram::from_id(7));
    renderer.register_shader_program(ShaderProgram::from_id(7));
    assert_eq!(renderer.resolve(7), &ShaderProgram::from_id(7));
}

#[test]
fn batching_binds_each_group_once() {
    let mut renderer = DefaultOpenGlRenderer::new(ShaderProgram::from_id(1));
    renderer.register_shader_program(ShaderProgram::from_id(10));
    renderer.register_shader_program(ShaderProgram::from_id(20));
    let scene = vec![
        drawable(10, 100, 3),
        drawable(20, 101, 6),
        drawable(10, 102, 9),
        drawable(20, 103, 12),
        drawable(10, 104, 15),
    ];
    let cmds = renderer.render(&vec![true], &scene);
    assert_eq!(binds(&cmds), vec![10, 20]);
    assert_eq!(draws(&cmds), 5);
    let expected = vec![
        RenderCommand::UseProgram { program: 10 },
        RenderCommand::SetCameraUniforms { camera: 0 },
        RenderCommand::SetModelUniform { entity: 0 },
        RenderCommand::BindVertexArray { vao: 100 },
        RenderCommand::DrawElements { count: 3 },
        RenderCommand::SetModelUniform { entity: 2 },
        RenderCommand::BindVertexArray { vao: 102 },
        RenderCommand::DrawElements { count: 9 },
        RenderCommand::SetModelUniform { entity: 4 },
        RenderCommand::BindVertexArray { vao: 104 },
        RenderCommand::DrawElements { count: 15 },
        RenderCommand::UseProgram { program: 20 },
        RenderCommand::SetCameraUniforms { camera: 0 },
        RenderCommand::SetModelUniform { entity: 1 },
        RenderCommand::BindVertexArray { vao: 101 },
        RenderCommand::DrawElements { count: 6 },
        RenderCommand::SetModelUniform { entity: 3 },
        RenderCommand::BindVertexArray { vao: 103 },
        RenderCommand::DrawElements { count: 12 },
    ];
    assert_eq!(cmds, expected);
}

#[test]
fn unregistered_shader_draws_with_fallback() {
    let renderer = DefaultOpenGlRenderer::new(ShaderProgram::from_id(1));
    let scene = vec![drawable(5, 100, 36)];
    let cmds = renderer.render_frame(&vec![true], &scene);
    assert_eq!(binds(&cmds), vec![1]);
    assert_eq!(draws(&cmds), 1);
}

#[test]
fn no_main_camera_draws_nothing() {
    let renderer = DefaultOpenGlRenderer::new(ShaderProgram::from_id(1));
    let scene = vec![drawable(5, 100, 36), drawable(6, 101, 36)];
    assert!(renderer.render_frame(&vec![false, false], &scene).is_empty());
    assert!(renderer.render_frame(&vec![], &scene).is_empty());
}

#[test]
fn one_main_camera_draws_from_it() {
    let renderer = DefaultOpenGlRenderer::new(ShaderProgram::from_id(1));
    let scene = vec![drawable(5, 100, 36)];
    let cmds = renderer.render_frame(&vec![false, true, false], &scene);
    assert_eq!(camera_binds(&cmds), vec![1]);
    assert_eq!(draws(&cmds), 1);
}

#[test]
fn two_main_cameras_draw_one_view() {
    let renderer = DefaultOpenGlRenderer::new(ShaderProgram::from_id(1));
    let scene = vec![drawable(5, 100, 36), drawable(5, 101, 6)];
    let cmds = renderer.render_frame(&vec![false, true, true], &scene);
    assert_eq!(camera_binds(&cmds), vec![1]);
    assert_eq!(draws(&cmds), 2);
}

#[test]
fn empty_scene_draws_nothing() {
    let renderer = DefaultOpenGlRenderer::new(ShaderProgram::from_id(1));
    let cmds = renderer.render_frame(&vec![true], &vec![]);
    assert!(cmds.is_empty());
}

#[test]
fn main_camera_selection() {
    assert_eq!(select_main_camera(&vec![]), None);
    assert_eq!(select_main_camera(&vec![false, false]), None);
    assert_eq!(select_main_camera(&vec![false, true, true]), Some(1));
    assert_eq!(select_main_camera(&vec![true]), Some(0));
}

#[test]
fn shared_geometry_draws_same_buffer() {
    let renderer = DefaultOpenGlRenderer::new(ShaderProgram::from_id(1));
    let mesh = Rc::new(Mesh::from_buffers(77, 720));
    let a = MeshRenderer::new(MeshType::Shared(Rc::clone(&mesh)), Material::from_program_id(3));
    let b = MeshRenderer::new(MeshType::Shared(Rc::clone(&mesh)), Material::from_program_id(4));
    assert_eq!(a.vao(), b.vao());
    assert_eq!(a.triangles_len(), 720);
    let cmds = renderer.render_frame(&vec![true], &vec![a, b]);
    let vaos: Vec<u32> = cmds
        .iter()
        .filter_map(|c| match c {
            RenderCommand::BindVertexArray { vao } => Some(*vao),
            _ => None,
        })
        .collect();
    let counts: Vec<u32> = cmds
        .iter()
        .filter_map(|c| match c {
            RenderCommand::DrawElements { count } => Some(*count),
            _ => None,
        })
        .collect();
    assert_eq!(vaos, vec![77, 77]);
    assert_eq!(counts, vec![720, 720]);
}

#[test]
fn material_proxies_shader_identifier() {
    let program = ShaderProgram::from_id(9);
    let material = Material::from_program(&program);
    assert_eq!(material.program_id(), 9);
    let r = MeshRenderer::new(MeshType::Owned(Mesh::from_buffers(4, 12)), material);
    assert_eq!(r.shader_id(), 9);
    assert_eq!(r.material().program_id(), 9);
    assert_eq!(r.vao(), 4);
    assert_eq!(r.triangles_len(), 12);
}
