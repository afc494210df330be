//! Shader stages and the program linked from them. Compiling and linking
//! happen on the graphics device; these types record the objects it made
//! and decide, from the status it reports, whether they can be used.
use vstd::prelude::*;
use crate::command::RenderCommand;

verus! {

/// The status a device reports for a compile or link that succeeded.
pub const STATUS_OK: i32 = 1;

/// The stage a shader runs in.
#[derive(Clone, Copy, Debug, PartialEq, Eq, Structural)]
pub enum ShaderType {
    VertexShader,
    FragmentShader,
}

impl ShaderType {
    /// The graphics API's name for this stage.
    pub fn gl_value(self) -> (r: u32)
        ensures
            r == match self {
                ShaderType::VertexShader => 0x8B31u32,
                ShaderType::FragmentShader => 0x8B30u32,
            },
    {
        match self {
            ShaderType::VertexShader => 0x8B31,
            ShaderType::FragmentShader => 0x8B30,
        }
    }
}

/// Why a shader or a program cannot be used.
#[derive(Clone, Copy, Debug, PartialEq, Eq, Structural)]
pub enum ShaderError {
    /// The device could not compile the shader's source.
    CompileFailed,
    /// Both shaders of a program run in the same stage.
    SameShaderType,
    /// The device could not link the program.
    LinkFailed,
}

/// A compiled shader object.
#[derive(Clone, Copy, Debug, PartialEq, Eq, Structural)]
pub struct Shader {
    shader_type: ShaderType,
    opengl_object_id: u32,
}

impl Shader {
    pub closed spec fn type_spec(&self) -> ShaderType {
        self.shader_type
    }

    pub closed spec fn id_spec(&self) -> u32 {
        self.opengl_object_id
    }

    /// Accepts the shader object `opengl_object_id` of the given stage if its
    /// compile status is the success status.
    pub fn new(shader_type: ShaderType, opengl_object_id: u32, compile_status: i32) -> (r: Result<
        Shader,
        ShaderError,
    >)
        ensures
            compile_status == STATUS_OK <==> r is Ok,
            r matches Ok(s) ==> s.type_spec() == shader_type && s.id_spec() == opengl_object_id,
            r matches Err(e) ==> e == ShaderError::CompileFailed,
    {
        if compile_status == STATUS_OK {
            Ok(Shader { shader_type, opengl_object_id })
        } else {
            Err(ShaderError::CompileFailed)
        }
    }

    pub fn get_shader_type(&self) -> (r: ShaderType)
        ensures
            r == self.type_spec(),
    {
        self.shader_type
    }

    pub fn get_opengl_object_id(&self) -> (r: u32)
        ensures
            r == self.id_spec(),
    {
        self.opengl_object_id
    }
}

/// A linked shader program.
#[derive(Clone, Copy, Debug, PartialEq, Eq, Structural)]
pub struct ShaderProgram {
    opengl_object_id: u32,
}

impl ShaderProgram {
    pub closed spec fn id_spec(&self) -> u32 {
        self.opengl_object_id
    }

    /// Checks that two shaders can form a program: they run in different
    /// stages.
    pub fn check_stages(vertex_shader: &Shader, fragment_shader: &Shader) -> (r: Result<
        (),
        ShaderError,
    >)
        ensures
            r is Ok <==> vertex_shader.type_spec() != fragment_shader.type_spec(),
            r matches Err(e) ==> e == ShaderError::SameShaderType,
    {
        if vertex_shader.get_shader_type() == fragment_shader.get_shader_type() {
            Err(ShaderError::SameShaderType)
        } else {
            Ok(())
        }
    }

    /// Accepts the program object `opengl_object_id`, linked from the two
    /// shaders, if they run in different stages and the link status is the
    /// success status.
    pub fn new(
        vertex_shader: &Shader,
        fragment_shader: &Shader,
        opengl_object_id: u32,
        link_status: i32,
    ) -> (r: Result<ShaderProgram, ShaderError>)
        ensures
            vertex_shader.type_spec() == fragment_shader.type_spec() ==> r == Err::<
                ShaderProgram,
                ShaderError,
            >(ShaderError::SameShaderType),
            vertex_shader.type_spec() != fragment_shader.type_spec() && link_status != STATUS_OK
                ==> r == Err::<ShaderProgram, ShaderError>(ShaderError::LinkFailed),
            vertex_shader.type_spec() != fragment_shader.type_spec() && link_status == STATUS_OK
                ==> (r matches Ok(p) && p.id_spec() == opengl_object_id),
    {
        ShaderProgram::check_stages(vertex_shader, fragment_shader)?;
        if link_status != STATUS_OK {
            return Err(ShaderError::LinkFailed);
        }
        Ok(ShaderProgram { opengl_object_id })
    }

    /// The command that makes this program the active one.
    pub fn activate(&self) -> (r: RenderCommand)
        ensures
            r == RenderCommand::UseProgram(self.id_spec()),
    {
        RenderCommand::UseProgram(self.opengl_object_id)
    }

    pub fn get_opengl_object_id(&self) -> (r: u32)
        ensures
            r == self.id_spec(),
    {
        self.opengl_object_id
    }
}

} // verus!
