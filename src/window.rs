//! The window-system settings the renderer asks for, with the values the
//! windowing library gives them.
use vstd::prelude::*;

verus! {

/// A window creation hint.
#[derive(Clone, Copy, Debug, PartialEq, Eq, Structural)]
pub enum WindowHint {
    Resizable,
    OpenGlProfile,
    ContextVersionMajor,
    ContextVersionMinor,
    OpenGlDebugContext,
}

impl WindowHint {
    /// The windowing library's code for this hint.
    pub fn value(self) -> (r: u32)
        ensures
            r == match self {
                WindowHint::Resizable => 0x00020003u32,
                WindowHint::OpenGlProfile => 0x00022008u32,
                WindowHint::ContextVersionMajor => 0x00022002u32,
                WindowHint::ContextVersionMinor => 0x00022003u32,
                WindowHint::OpenGlDebugContext => 0x00022007u32,
            },
    {
        match self {
            WindowHint::Resizable => 0x00020003,
            WindowHint::OpenGlProfile => 0x00022008,
            WindowHint::ContextVersionMajor => 0x00022002,
            WindowHint::ContextVersionMinor => 0x00022003,
            WindowHint::OpenGlDebugContext => 0x00022007,
        }
    }
}

/// The windowing library's booleans.
#[derive(Clone, Copy, Debug, PartialEq, Eq, Structural)]
pub enum GlfwBoolean {
    True,
    False,
}

impl GlfwBoolean {
    pub fn value(self) -> (r: u32)
        ensures
            r == match self {
                GlfwBoolean::True => 1u32,
                GlfwBoolean::False => 0u32,
            },
    {
        match self {
            GlfwBoolean::True => 1,
            GlfwBoolean::False => 0,
        }
    }
}

/// A value for a window hint that is not a number or a boolean.
#[derive(Clone, Copy, Debug, PartialEq, Eq, Structural)]
pub enum WindowHintValue {
    OpenGlCoreProfile,
}

impl WindowHintValue {
    pub fn value(self) -> (r: u32)
        ensures
            r == 0x00032001u32,
    {
        match self {
            WindowHintValue::OpenGlCoreProfile => 0x00032001,
        }
    }
}

/// How often a buffer's contents are expected to change.
#[derive(Clone, Copy, Debug, PartialEq, Eq, Structural)]
pub enum Usage {
    DynamicDraw,
    StaticDraw,
}

impl Usage {
    /// The graphics API's name for this usage.
    pub fn gl_value(self) -> (r: u32)
        ensures
            r == match self {
                Usage::DynamicDraw => 0x88E8u32,
                Usage::StaticDraw => 0x88E4u32,
            },
    {
        match self {
            Usage::DynamicDraw => 0x88E8,
            Usage::StaticDraw => 0x88E4,
        }
    }
}

} // verus!
