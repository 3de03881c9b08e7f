//! Keyboard controls: which key does what to the view and the render modes.
//!
//! The host application reads key events and applies the float steps of its
//! control map; the decisions (which key means which command, and how the
//! render and color modes cycle) are made here.

use vstd::prelude::*;
use crate::config::{ColorMode, RenderMode};

verus! {

/// Semantic action produced by a control mapping.
#[derive(Debug, Clone, Copy, PartialEq, Eq, Structural)]
pub enum ControlAction {
    /// View rotation changed.
    Rotate,
    /// View pan changed.
    Pan,
    /// View zoom changed.
    Zoom,
    /// View was reset.
    Reset,
    /// Render mode was changed.
    ToggleRenderMode,
    /// Color mode was changed.
    ToggleColorMode,
    /// Auto-spin was toggled.
    ToggleAutoSpin,
    /// Help overlay was toggled.
    ToggleHelp,
    /// Caller should quit the viewer.
    Quit,
}

/// A key press, as far as the controls read it.
#[derive(Debug, Clone, Copy, PartialEq, Eq, Structural)]
pub enum KeyInput {
    /// A character key.
    Char(char),
    /// Left arrow.
    Left,
    /// Right arrow.
    Right,
    /// Up arrow.
    Up,
    /// Down arrow.
    Down,
    /// Escape.
    Esc,
    /// Any other key.
    Other,
}

/// A view axis.
#[derive(Debug, Clone, Copy, PartialEq, Eq, Structural)]
pub enum Axis {
    X,
    Y,
    Z,
}

/// What a key asks of the viewer. Rotation and pan move by `steps` times the
/// control map's step along one axis: one step, two with Shift held, and a
/// negative count for the opposite direction.
#[derive(Debug, Clone, Copy, PartialEq, Eq, Structural)]
pub enum ViewCommand {
    /// Quit the viewer.
    Quit,
    /// Rotate about an axis.
    Rotate { axis: Axis, steps: i8 },
    /// Pan along an axis.
    Pan { axis: Axis, steps: i8 },
    /// Multiply the zoom by the zoom-in factor.
    ZoomIn,
    /// Multiply the zoom by the zoom-out factor.
    ZoomOut,
    /// Reset the view, keeping auto-spin and help visibility.
    Reset,
    /// Toggle auto-spin.
    ToggleAutoSpin,
    /// Toggle the help overlay.
    ToggleHelp,
    /// Switch to the next render mode.
    CycleRenderMode,
    /// Switch to the next color mode.
    CycleColorMode,
}

/// The key table: arrows and `wasd` rotate, `z`/`x` roll, `hjkl` pan, `+`/`=`
/// and `-`/`_` zoom, `r` resets, space toggles auto-spin, `?` toggles help,
/// `m` and `c` cycle the render and color modes, `q` and Esc quit.
pub open spec fn command_for(key: KeyInput, shift: bool) -> Option<ViewCommand> {
    let n: i8 = if shift { 2 } else { 1 };
    let m: i8 = if shift { -2i8 } else { -1i8 };
    match key {
        KeyInput::Esc | KeyInput::Char('q') => Some(ViewCommand::Quit),
        KeyInput::Left | KeyInput::Char('a') => Some(ViewCommand::Rotate { axis: Axis::Y, steps: m }),
        KeyInput::Right | KeyInput::Char('d') => Some(ViewCommand::Rotate { axis: Axis::Y, steps: n }),
        KeyInput::Up | KeyInput::Char('w') => Some(ViewCommand::Rotate { axis: Axis::X, steps: m }),
        KeyInput::Down | KeyInput::Char('s') => Some(ViewCommand::Rotate { axis: Axis::X, steps: n }),
        KeyInput::Char('z') => Some(ViewCommand::Rotate { axis: Axis::Z, steps: m }),
        KeyInput::Char('x') => Some(ViewCommand::Rotate { axis: Axis::Z, steps: n }),
        KeyInput::Char('h') => Some(ViewCommand::Pan { axis: Axis::X, steps: m }),
        KeyInput::Char('l') => Some(ViewCommand::Pan { axis: Axis::X, steps: n }),
        KeyInput::Char('j') => Some(ViewCommand::Pan { axis: Axis::Y, steps: m }),
        KeyInput::Char('k') => Some(ViewCommand::Pan { axis: Axis::Y, steps: n }),
        KeyInput::Char('+') | KeyInput::Char('=') => Some(ViewCommand::ZoomIn),
        KeyInput::Char('-') | KeyInput::Char('_') => Some(ViewCommand::ZoomOut),
        KeyInput::Char('r') => Some(ViewCommand::Reset),
        KeyInput::Char(' ') => Some(ViewCommand::ToggleAutoSpin),
        KeyInput::Char('?') => Some(ViewCommand::ToggleHelp),
        KeyInput::Char('m') => Some(ViewCommand::CycleRenderMode),
        KeyInput::Char('c') => Some(ViewCommand::CycleColorMode),
        _ => None,
    }
}

/// The action reported for a command.
pub open spec fn action_of(c: ViewCommand) -> ControlAction {
    match c {
        ViewCommand::Quit => ControlAction::Quit,
        ViewCommand::Rotate { .. } => ControlAction::Rotate,
        ViewCommand::Pan { .. } => ControlAction::Pan,
        ViewCommand::ZoomIn | ViewCommand::ZoomOut => ControlAction::Zoom,
        ViewCommand::Reset => ControlAction::Reset,
        ViewCommand::ToggleAutoSpin => ControlAction::ToggleAutoSpin,
        ViewCommand::ToggleHelp => ControlAction::ToggleHelp,
        ViewCommand::CycleRenderMode => ControlAction::ToggleRenderMode,
        ViewCommand::CycleColorMode => ControlAction::ToggleColorMode,
    }
}

/// Solid, then wireframe, then points, then solid again.
pub open spec fn render_mode_after(m: RenderMode) -> RenderMode {
    match m {
        RenderMode::Solid => RenderMode::Wireframe,
        RenderMode::Wireframe => RenderMode::Points,
        RenderMode::Points => RenderMode::Solid,
    }
}

/// Material, lighting, texture, auto, off, and material again.
pub open spec fn color_mode_after(m: ColorMode) -> ColorMode {
    match m {
        ColorMode::Material => ColorMode::Lighting,
        ColorMode::Lighting => ColorMode::Texture,
        ColorMode::Texture => ColorMode::Auto,
        ColorMode::Auto => ColorMode::Off,
        ColorMode::Off => ColorMode::Material,
    }
}

/// The command a key asks for, `None` for an unmapped key.
pub fn command_for_key(key: KeyInput, shift: bool) -> (c: Option<ViewCommand>)
    ensures
        c == command_for(key, shift),
{
    let n: i8 = if shift {
        2
    } else {
        1
    };
    match key {
        KeyInput::Esc => Some(ViewCommand::Quit),
        KeyInput::Left => Some(ViewCommand::Rotate { axis: Axis::Y, steps: -n }),
        KeyInput::Right => Some(ViewCommand::Rotate { axis: Axis::Y, steps: n }),
        KeyInput::Up => Some(ViewCommand::Rotate { axis: Axis::X, steps: -n }),
        KeyInput::Down => Some(ViewCommand::Rotate { axis: Axis::X, steps: n }),
        KeyInput::Other => None,
        KeyInput::Char(ch) => {
            if ch == 'q' {
                Some(ViewCommand::Quit)
            } else if ch == 'a' {
                Some(ViewCommand::Rotate { axis: Axis::Y, steps: -n })
            } else if ch == 'd' {
                Some(ViewCommand::Rotate { axis: Axis::Y, steps: n })
            } else if ch == 'w' {
                Some(ViewCommand::Rotate { axis: Axis::X, steps: -n })
            } else if ch == 's' {
                Some(ViewCommand::Rotate { axis: Axis::X, steps: n })
            } else if ch == 'z' {
                Some(ViewCommand::Rotate { axis: Axis::Z, steps: -n })
            } else if ch == 'x' {
                Some(ViewCommand::Rotate { axis: Axis::Z, steps: n })
            } else if ch == 'h' {
                Some(ViewCommand::Pan { axis: Axis::X, steps: -n })
            } else if ch == 'l' {
                Some(ViewCommand::Pan { axis: Axis::X, steps: n })
            } else if ch == 'j' {
                Some(ViewCommand::Pan { axis: Axis::Y, steps: -n })
            } else if ch == 'k' {
                Some(ViewCommand::Pan { axis: Axis::Y, steps: n })
            } else if ch == '+' || ch == '=' {
                Some(ViewCommand::ZoomIn)
            } else if ch == '-' || ch == '_' {
                Some(ViewCommand::ZoomOut)
            } else if ch == 'r' {
                Some(ViewCommand::Reset)
            } else if ch == ' ' {
                Some(ViewCommand::ToggleAutoSpin)
            } else if ch == '?' {
                Some(ViewCommand::ToggleHelp)
            } else if ch == 'm' {
                Some(ViewCommand::CycleRenderMode)
            } else if ch == 'c' {
                Some(ViewCommand::CycleColorMode)
            } else {
                None
            }
        },
    }
}

impl ViewCommand {
    /// The action reported for this command.
    pub fn action(self) -> (a: ControlAction)
        ensures
            a == action_of(self),
    {
        match self {
            ViewCommand::Quit => ControlAction::Quit,
            ViewCommand::Rotate { .. } => ControlAction::Rotate,
            ViewCommand::Pan { .. } => ControlAction::Pan,
            ViewCommand::ZoomIn | ViewCommand::ZoomOut => ControlAction::Zoom,
            ViewCommand::Reset => ControlAction::Reset,
            ViewCommand::ToggleAutoSpin => ControlAction::ToggleAutoSpin,
            ViewCommand::ToggleHelp => ControlAction::ToggleHelp,
            ViewCommand::CycleRenderMode => ControlAction::ToggleRenderMode,
            ViewCommand::CycleColorMode => ControlAction::ToggleColorMode,
        }
    }
}

/// The render mode that `m` cycles to.
pub fn next_render_mode(m: RenderMode) -> (n: RenderMode)
    ensures
        n == render_mode_after(m),
{
    match m {
        RenderMode::Solid => RenderMode::Wireframe,
        RenderMode::Wireframe => RenderMode::Points,
        RenderMode::Points => RenderMode::Solid,
    }
}

/// The color mode that `m` cycles to.
pub fn next_color_mode(m: ColorMode) -> (n: ColorMode)
    ensures
        n == color_mode_after(m),
{
    match m {
        ColorMode::Material => ColorMode::Lighting,
        ColorMode::Lighting => ColorMode::Texture,
        ColorMode::Texture => ColorMode::Auto,
        ColorMode::Auto => ColorMode::Off,
        ColorMode::Off => ColorMode::Material,
    }
}

/// Pressing `m` three times comes back to the starting render mode, passing
/// through every mode once.
pub proof fn law_render_mode_cycle(m: RenderMode)
    ensures
        render_mode_after(render_mode_after(render_mode_after(m))) == m,
        render_mode_after(m) != m,
        render_mode_after(render_mode_after(m)) != m,
{
}

/// Pressing `c` five times comes back to the starting color mode, and the
/// five modes on the way are all different.
pub proof fn law_color_mode_cycle(m: ColorMode)
    ensures
        color_mode_iter(m, 5) == m,
        forall|i: nat, j: nat|
            i < j < 5 ==> #[trigger] color_mode_iter(m, i) != #[trigger] color_mode_iter(m, j),
{
    reveal_with_fuel(color_mode_iter, 6);
}

/// The color mode after `k` presses of `c`.
pub open spec fn color_mode_iter(m: ColorMode, k: nat) -> ColorMode
    decreases k,
{
    if k == 0 {
        m
    } else {
        color_mode_after(color_mode_iter(m, (k - 1) as nat))
    }
}

/// Shift doubles the rotation and pan steps and keeps every other command.
pub proof fn law_shift_doubles_steps(key: KeyInput)
    ensures
        command_for(key, false) is None <==> command_for(key, true) is None,
        command_for(key, false) matches Some(ViewCommand::Rotate { axis, steps }) ==> command_for(
            key,
            true,
        ) == Some(ViewCommand::Rotate { axis, steps: (2 * steps) as i8 }),
        command_for(key, false) matches Some(ViewCommand::Pan { axis, steps }) ==> command_for(
            key,
            true,
        ) == Some(ViewCommand::Pan { axis, steps: (2 * steps) as i8 }),
        (command_for(key, false) matches Some(c) && !(c is Rotate) && !(c is Pan)) ==> command_for(
            key,
            true,
        ) == command_for(key, false),
{
}

/// The command with its direction reversed: rotation and pan steps negated,
/// every other command unchanged.
pub open spec fn reversed(c: Option<ViewCommand>) -> Option<ViewCommand> {
    match c {
        Some(ViewCommand::Rotate { axis, steps }) => Some(ViewCommand::Rotate { axis, steps: (-steps) as i8 }),
        Some(ViewCommand::Pan { axis, steps }) => Some(ViewCommand::Pan { axis, steps: (-steps) as i8 }),
        other => other,
    }
}

/// `c` rotates about `axis` by `steps`.
pub open spec fn rotates(c: Option<ViewCommand>, axis: Axis, steps: int) -> bool {
    c matches Some(ViewCommand::Rotate { axis: a, steps: s }) && a == axis && s == steps
}

/// `c` pans along `axis` by `steps`.
pub open spec fn pans(c: Option<ViewCommand>, axis: Axis, steps: int) -> bool {
    c matches Some(ViewCommand::Pan { axis: a, steps: s }) && a == axis && s == steps
}

/// Paired keys move in opposite directions, with or without Shift: `Left` /
/// `Right` and `a` / `d` turn about Y, `Up` / `Down` and `w` / `s` about X,
/// `z` / `x` roll about Z, `h` / `l` pan along X and `j` / `k` along Y. The
/// second key of each pair moves one step forward (two with Shift), the
/// first one the same amount back, and each letter matches its arrow.
pub proof fn law_paired_keys_oppose(shift: bool)
    ensures
        ({
            let n: int = if shift { 2 } else { 1 };
            &&& rotates(command_for(KeyInput::Right, shift), Axis::Y, n)
            &&& rotates(command_for(KeyInput::Down, shift), Axis::X, n)
            &&& rotates(command_for(KeyInput::Char('x'), shift), Axis::Z, n)
            &&& pans(command_for(KeyInput::Char('l'), shift), Axis::X, n)
            &&& pans(command_for(KeyInput::Char('k'), shift), Axis::Y, n)
        }),
        command_for(KeyInput::Left, shift) == reversed(command_for(KeyInput::Right, shift)),
        command_for(KeyInput::Up, shift) == reversed(command_for(KeyInput::Down, shift)),
        command_for(KeyInput::Char('z'), shift) == reversed(command_for(KeyInput::Char('x'), shift)),
        command_for(KeyInput::Char('h'), shift) == reversed(command_for(KeyInput::Char('l'), shift)),
        command_for(KeyInput::Char('j'), shift) == reversed(command_for(KeyInput::Char('k'), shift)),
        command_for(KeyInput::Char('a'), shift) == command_for(KeyInput::Left, shift),
        command_for(KeyInput::Char('d'), shift) == command_for(KeyInput::Right, shift),
        command_for(KeyInput::Char('w'), shift) == command_for(KeyInput::Up, shift),
        command_for(KeyInput::Char('s'), shift) == command_for(KeyInput::Down, shift),
{
}

/// The keys that do something other than move: exactly Esc and `q` quit,
/// `+` and `=` zoom in, `-` and `_` zoom out, `r` resets, space toggles
/// auto-spin, `?` toggles help, `m` cycles the render mode and `c` the color
/// mode; Shift changes none of these.
pub proof fn law_key_table(key: KeyInput, shift: bool)
    ensures
        command_for(key, shift) == Some(ViewCommand::Quit) <==> (key == KeyInput::Esc || key
            == KeyInput::Char('q')),
        command_for(key, shift) == Some(ViewCommand::ZoomIn) <==> (key == KeyInput::Char('+') || key
            == KeyInput::Char('=')),
        command_for(key, shift) == Some(ViewCommand::ZoomOut) <==> (key == KeyInput::Char('-') || key
            == KeyInput::Char('_')),
        command_for(key, shift) == Some(ViewCommand::Reset) <==> key == KeyInput::Char('r'),
        command_for(key, shift) == Some(ViewCommand::ToggleAutoSpin) <==> key == KeyInput::Char(' '),
        command_for(key, shift) == Some(ViewCommand::ToggleHelp) <==> key == KeyInput::Char('?'),
        command_for(key, shift) == Some(ViewCommand::CycleRenderMode) <==> key == KeyInput::Char('m'),
        command_for(key, shift) == Some(ViewCommand::CycleColorMode) <==> key == KeyInput::Char('c'),
        command_for(key, shift) is None <==> (key == KeyInput::Other || (key matches KeyInput::Char(ch)
            && !(ch == 'q' || ch == 'a' || ch == 'd' || ch == 'w' || ch == 's' || ch == 'z' || ch
            == 'x' || ch == 'h' || ch == 'l' || ch == 'j' || ch == 'k' || ch == '+' || ch == '='
            || ch == '-' || ch == '_' || ch == 'r' || ch == ' ' || ch == '?' || ch == 'm' || ch
            == 'c'))),
{
}

} // verus!
