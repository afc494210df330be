use beagle_text::command::RenderCommand;
use beagle_text::input::{Button, InputState, ACTION_PRESS, ACTION_RELEASE, KEY_DOWN, KEY_LEFT, KEY_RIGHT, KEY_UP};
use beagle_text::shader::{Shader, ShaderError, ShaderProgram, ShaderType};
use beagle_text::texture::Texture;
use beagle_text::timestep::FixedTimestep;
use beagle_text::window::{GlfwBoolean, Usage, WindowHint, WindowHintValue};

#[test]
fn texture_reports_its_image() {
    let t = Texture::new(3, 640, 480, 4);
    assert_eq!(t.get_width(), 640);
    assert_eq!(t.get_height(), 480);
    assert_eq!(t.get_depth(), 4);
    assert_eq!(t.get_opengl_object_id(), 3);
    assert_eq!(t.activate(), RenderCommand::BindTexture(3));
    assert_eq!(t.release(), RenderCommand::DeleteTexture(3));
}

#[test]
fn shader_compile_status_decides() {
    let ok = Shader::new(ShaderType::VertexShader, 11, 1).expect("compiled");
    assert_eq!(ok.get_shader_type(), ShaderType::VertexShader);
    assert_eq!(ok.get_opengl_object_id(), 11);
    assert_eq!(Shader::new(ShaderType::FragmentShader, 12, 0).err(), Some(ShaderError::CompileFailed));
}

#[test]
fn program_needs_two_stages_and_a_link() {
    let v = Shader::new(ShaderType::VertexShader, 1, 1).unwrap();
    let f = Shader::new(ShaderType::FragmentShader, 2, 1).unwrap();
    let p = ShaderProgram::new(&v, &f, 5, 1).expect("linked");
    assert_eq!(p.get_opengl_object_id(), 5);
    assert_eq!(p.activate(), RenderCommand::UseProgram(5));
    assert_eq!(ShaderProgram::new(&v, &v, 5, 1).err(), Some(ShaderError::SameShaderType));
    assert_eq!(ShaderProgram::new(&v, &f, 5, 0).err(), Some(ShaderError::LinkFailed));
    assert_eq!(ShaderProgram::check_stages(&f, &f), Err(ShaderError::SameShaderType));
    assert_eq!(ShaderProgram::check_stages(&v, &f), Ok(()));
}

#[test]
fn enum_values_match_the_libraries() {
    assert_eq!(ShaderType::VertexShader.gl_value(), 0x8B31);
    assert_eq!(ShaderType::FragmentShader.gl_value(), 0x8B30);
    assert_eq!(Usage::DynamicDraw.gl_value(), 0x88E8);
    assert_eq!(Usage::StaticDraw.gl_value(), 0x88E4);
    assert_eq!(WindowHint::Resizable.value(), 0x00020003);
    assert_eq!(WindowHint::OpenGlProfile.value(), 0x00022008);
    assert_eq!(WindowHint::ContextVersionMajor.value(), 0x00022002);
    assert_eq!(WindowHint::ContextVersionMinor.value(), 0x00022003);
    assert_eq!(WindowHint::OpenGlDebugContext.value(), 0x00022007);
    assert_eq!(GlfwBoolean::True.value(), 1);
    assert_eq!(GlfwBoolean::False.value(), 0);
    assert_eq!(WindowHintValue::OpenGlCoreProfile.value(), 0x00032001);
}

#[test]
fn keys_are_held_until_released() {
    let mut s = InputState::new();
    assert!(!s.is_key_down(Button::Right));
    s.handle_key(KEY_RIGHT, ACTION_PRESS);
    s.handle_key(KEY_UP, ACTION_PRESS);
    assert!(s.is_key_down(Button::Right));
    assert!(s.is_key_down(Button::Up));
    assert_eq!(s.camera_velocity(), (-500, 500));
    s.handle_key(KEY_RIGHT, ACTION_RELEASE);
    assert!(!s.is_key_down(Button::Right));
    s.handle_key(KEY_LEFT, ACTION_PRESS);
    s.handle_key(KEY_DOWN, ACTION_PRESS);
    assert_eq!(s.camera_velocity(), (500, 0));
    s.handle_key(KEY_LEFT, 2);
    assert!(s.is_key_down(Button::Left));
    s.handle_key(32, ACTION_PRESS);
    assert_eq!(InputState::button_for_key(32), None);
    assert_eq!(InputState::button_for_key(KEY_DOWN), Some(Button::Down));
}

#[test]
fn release_without_press_leaves_key_up() {
    let mut s = InputState::new();
    s.handle_key(KEY_LEFT, ACTION_RELEASE);
    assert!(!s.is_key_down(Button::Left));
    assert_eq!(s.camera_velocity(), (0, 0));
}

#[test]
fn timestep_carries_remainder_and_caps_frames() {
    let ms = 1_000_000u64;
    let mut clock = FixedTimestep::new(ms, 250 * ms);
    assert_eq!(clock.advance(2 * ms + ms / 2), 2);
    assert_eq!(clock.advance(ms / 2), 1);
    assert_eq!(clock.advance(10_000 * ms), 250);
    assert_eq!(clock.advance(0), 0);
}
