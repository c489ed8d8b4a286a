use vstd::prelude::*;

verus! {

/// A linked GPU shader program, known to the rendering core by the
/// identifier that the graphics driver assigned to it at link time.
#[derive(Clone, Copy, Debug, PartialEq, Eq, Structural)]
pub struct ShaderProgram {
    id: u32,
}

impl ShaderProgram {
    /// The driver-assigned identifier of this program.
    pub closed spec fn spec_id(&self) -> u32 {
        self.id
    }

    /// Wraps a program object that the graphics layer has compiled and linked.
    pub fn from_id(id: u32) -> (r: ShaderProgram)
        ensures
            r.spec_id() == id,
    {
        ShaderProgram { id }
    }

    pub fn id(&self) -> (r: u32)
        ensures
            r == self.spec_id(),
    {
        self.id
    }
}

} // verus!
