use std::rc::Rc;
use vstd::prelude::*;

use crate::shaders::ShaderProgram;

verus! {

/// GPU-resident geometry: the vertex-array object that binds its vertex and
/// index buffers, and the number of indices that one draw of it submits.
#[derive(Clone, Copy, Debug, PartialEq, Eq, Structural)]
pub struct Mesh {
    vao: u32,
    triangles_len: u32,
}

impl Mesh {
    pub closed spec fn spec_vao(&self) -> u32 {
        self.vao
    }

    pub closed spec fn spec_triangles_len(&self) -> u32 {
        self.triangles_len
    }

    /// Wraps geometry that the graphics layer has uploaded.
    pub fn from_buffers(vao: u32, triangles_len: u32) -> (r: Mesh)
        ensures
            r.spec_vao() == vao,
            r.spec_triangles_len() == triangles_len,
    {
        Mesh { vao, triangles_len }
    }

    pub fn vao(&self) -> (r: u32)
        ensures
            r == self.spec_vao(),
    {
        self.vao
    }

    pub fn triangles_len(&self) -> (r: u32)
        ensures
            r == self.spec_triangles_len(),
    {
        self.triangles_len
    }
}

/// How a mesh renderer holds its geometry: alone, or shared by reference
/// count with other mesh renderers (read-only sharing).
pub enum MeshType {
    Owned(Mesh),
    Shared(Rc<Mesh>),
}

impl MeshType {
    /// The geometry held, whichever way it is held.
    pub open spec fn spec_mesh(&self) -> Mesh {
        match self {
            MeshType::Owned(m) => *m,
            MeshType::Shared(rc) => **rc,
        }
    }

    pub fn mesh(&self) -> (r: &Mesh)
        ensures
            *r == self.spec_mesh(),
    {
        match self {
            MeshType::Owned(m) => m,
            MeshType::Shared(rc) => &**rc,
        }
    }
}

/// Per-surface visual parameters: the identifier of the shader program that
/// draws the surface. The program itself lives in the renderer's registry,
/// and the identifier may be unregistered when a frame is drawn.
#[derive(Clone, Copy, Debug, PartialEq, Eq, Structural)]
pub struct Material {
    program_ref: u32,
}

impl Material {
    pub closed spec fn spec_program_id(&self) -> u32 {
        self.program_ref
    }

    /// A material drawn with the given program.
    pub fn from_program(program: &ShaderProgram) -> (r: Material)
        ensures
            r.spec_program_id() == program.spec_id(),
    {
        Material { program_ref: program.id() }
    }

    /// A material that refers to a program by identifier alone.
    pub fn from_program_id(id: u32) -> (r: Material)
        ensures
            r.spec_program_id() == id,
    {
        Material { program_ref: id }
    }

    pub fn program_id(&self) -> (r: u32)
        ensures
            r == self.spec_program_id(),
    {
        self.program_ref
    }
}

/// The drawable part of an entity: its geometry and its material.
pub struct MeshRenderer {
    mesh: MeshType,
    material: Material,
}

impl MeshRenderer {
    pub closed spec fn spec_mesh(&self) -> Mesh {
        self.mesh.spec_mesh()
    }

    pub closed spec fn spec_material(&self) -> Material {
        self.material
    }

    /// The shader identifier that this renderer's material asks for.
    pub open spec fn spec_shader_id(&self) -> u32 {
        self.spec_material().spec_program_id()
    }

    pub open spec fn spec_vao(&self) -> u32 {
        self.spec_mesh().spec_vao()
    }

    pub open spec fn spec_triangles_len(&self) -> u32 {
        self.spec_mesh().spec_triangles_len()
    }

    pub fn new(mesh: MeshType, material: Material) -> (r: MeshRenderer)
        ensures
            r.spec_mesh() == mesh.spec_mesh(),
            r.spec_material() == material,
    {
        MeshRenderer { mesh, material }
    }

    pub fn material(&self) -> (r: &Material)
        ensures
            *r == self.spec_material(),
    {
        &self.material
    }

    /// The shader identifier, proxied from the material.
    pub fn shader_id(&self) -> (r: u32)
        ensures
            r == self.spec_shader_id(),
    {
        self.material.program_id()
    }

    /// The vertex-array object to bind before drawing.
    pub fn vao(&self) -> (r: u32)
        ensures
            r == self.spec_vao(),
    {
        self.mesh.mesh().vao()
    }

    /// The index count of one draw call of this renderer's geometry.
    pub fn triangles_len(&self) -> (r: u32)
        ensures
            r == self.spec_triangles_len(),
    {
        self.mesh.mesh().triangles_len()
    }
}

} // verus!
