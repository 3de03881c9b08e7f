use ratatui_3dmesh::config::{ColorMode, RenderMode};
use ratatui_3dmesh::controls::{
    command_for_key, next_color_mode, next_render_mode, Axis, ControlAction, KeyInput, ViewCommand,
};

#[test]
fn controls_mutate_state() {
    let command = command_for_key(KeyInput::Char('+'), false).unwrap();
    assert_eq!(command, ViewCommand::ZoomIn);
    assert_eq!(command.action(), ControlAction::Zoom);
}

#[test]
fn key_table() {
    assert_eq!(command_for_key(KeyInput::Char('q'), false), Some(ViewCommand::Quit));
    assert_eq!(command_for_key(KeyInput::Esc, true), Some(ViewCommand::Quit));
    assert_eq!(
        command_for_key(KeyInput::Left, false),
        Some(ViewCommand::Rotate { axis: Axis::Y, steps: -1 })
    );
    assert_eq!(
        command_for_key(KeyInput::Char('d'), false),
        Some(ViewCommand::Rotate { axis: Axis::Y, steps: 1 })
    );
    assert_eq!(
        command_for_key(KeyInput::Up, false),
        Some(ViewCommand::Rotate { axis: Axis::X, steps: -1 })
    );
    assert_eq!(
        command_for_key(KeyInput::Char('s'), false),
        Some(ViewCommand::Rotate { axis: Axis::X, steps: 1 })
    );
    assert_eq!(
        command_for_key(KeyInput::Char('z'), false),
        Some(ViewCommand::Rotate { axis: Axis::Z, steps: -1 })
    );
    assert_eq!(
        command_for_key(KeyInput::Char('h'), false),
        Some(ViewCommand::Pan { axis: Axis::X, steps: -1 })
    );
    assert_eq!(
        command_for_key(KeyInput::Char('k'), false),
        Some(ViewCommand::Pan { axis: Axis::Y, steps: 1 })
    );
    assert_eq!(command_for_key(KeyInput::Char('_'), false), Some(ViewCommand::ZoomOut));
    assert_eq!(command_for_key(KeyInput::Char('='), false), Some(ViewCommand::ZoomIn));
    assert_eq!(command_for_key(KeyInput::Char('r'), false), Some(ViewCommand::Reset));
    assert_eq!(command_for_key(KeyInput::Char(' '), false), Some(ViewCommand::ToggleAutoSpin));
    assert_eq!(command_for_key(KeyInput::Char('?'), false), Some(ViewCommand::ToggleHelp));
    assert_eq!(command_for_key(KeyInput::Char('m'), false), Some(ViewCommand::CycleRenderMode));
    assert_eq!(command_for_key(KeyInput::Char('c'), false), Some(ViewCommand::CycleColorMode));
    assert_eq!(command_for_key(KeyInput::Char('Q'), false), None);
    assert_eq!(command_for_key(KeyInput::Other, false), None);
}

#[test]
fn shift_doubles_steps_only() {
    assert_eq!(
        command_for_key(KeyInput::Right, true),
        Some(ViewCommand::Rotate { axis: Axis::Y, steps: 2 })
    );
    assert_eq!(
        command_for_key(KeyInput::Char('j'), true),
        Some(ViewCommand::Pan { axis: Axis::Y, steps: -2 })
    );
    assert_eq!(command_for_key(KeyInput::Char('m'), true), Some(ViewCommand::CycleRenderMode));
}

#[test]
fn actions_of_commands() {
    assert_eq!(ViewCommand::Rotate { axis: Axis::Z, steps: 1 }.action(), ControlAction::Rotate);
    assert_eq!(ViewCommand::Pan { axis: Axis::X, steps: 1 }.action(), ControlAction::Pan);
    assert_eq!(ViewCommand::ZoomOut.action(), ControlAction::Zoom);
    assert_eq!(ViewCommand::Reset.action(), ControlAction::Reset);
    assert_eq!(ViewCommand::CycleRenderMode.action(), ControlAction::ToggleRenderMode);
    assert_eq!(ViewCommand::CycleColorMode.action(), ControlAction::ToggleColorMode);
    assert_eq!(ViewCommand::ToggleAutoSpin.action(), ControlAction::ToggleAutoSpin);
    assert_eq!(ViewCommand::ToggleHelp.action(), ControlAction::ToggleHelp);
    assert_eq!(ViewCommand::Quit.action(), ControlAction::Quit);
}

#[test]
fn render_modes_cycle_in_three() {
    assert_eq!(next_render_mode(RenderMode::Solid), RenderMode::Wireframe);
    assert_eq!(next_render_mode(RenderMode::Wireframe), RenderMode::Points);
    assert_eq!(next_render_mode(RenderMode::Points), RenderMode::Solid);
}

#[test]
fn color_modes_cycle_through_all_five() {
    let mut mode = ColorMode::Material;
    let mut seen = vec![mode];
    for _ in 0..4 {
        mode = next_color_mode(mode);
        seen.push(mode);
    }
    assert_eq!(
        seen,
        vec![ColorMode::Material, ColorMode::Lighting, ColorMode::Texture, ColorMode::Auto, ColorMode::Off]
    );
    assert_eq!(next_color_mode(mode), ColorMode::Material);
}
