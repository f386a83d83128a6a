//! The interactive controls as a state machine: what one frame's input does
//! to the view, and what has to be drawn in response.

use vstd::prelude::*;
use vstd::arithmetic::power2::lemma2_to64;
use vstd::arithmetic::power2::lemma_pow2_strictly_increases;
use vstd::arithmetic::power2::lemma_pow2_unfold;
use vstd::arithmetic::power2::pow2;
use crate::camera::Camera;
use crate::complex::Complex;
use crate::fixed::Fixed;
use crate::params::FractalParams;
use crate::params::ShaderKind;
use crate::uniform::spec_split;
use crate::uniform::split;
use crate::uniform::Split;

verus! {

/// Width of a saved image, in pixels.
pub const SAVE_WIDTH: i32 = 4960;

/// Height of a saved image, in pixels.
pub const SAVE_HEIGHT: i32 = 3508;

/// Real part of the camera's centre at the start of a session: minus one
/// half.
pub const START_CENTER_X: Fixed = -0x8000_0000_0000;

/// Zoom at the start of a session: two and a half.
pub const START_ZOOM: Fixed = 0x2_8000_0000_0000;

/// Iteration budget at the start of a session.
pub const START_ITERATIONS: u32 = 32;

/// The ten number keys, in the order in which they lie on the keyboard.
#[derive(Clone, Copy, Debug, PartialEq, Eq, Structural)]
pub enum DigitKey {
    One,
    Two,
    Three,
    Four,
    Five,
    Six,
    Seven,
    Eight,
    Nine,
    Zero,
}

/// The number key at position `i` of the row.
pub open spec fn digit_at(i: int) -> DigitKey {
    if i == 0 {
        DigitKey::One
    } else if i == 1 {
        DigitKey::Two
    } else if i == 2 {
        DigitKey::Three
    } else if i == 3 {
        DigitKey::Four
    } else if i == 4 {
        DigitKey::Five
    } else if i == 5 {
        DigitKey::Six
    } else if i == 6 {
        DigitKey::Seven
    } else if i == 7 {
        DigitKey::Eight
    } else if i == 8 {
        DigitKey::Nine
    } else {
        DigitKey::Zero
    }
}

/// The number keys, each with its position in the row.
pub fn number_keys() -> (keys: [(DigitKey, u32); 10])
    ensures
        forall|i: int| 0 <= i < 10 ==> (#[trigger] keys[i]).0 == digit_at(i) && keys[i].1 == i,
{
    [
        (DigitKey::One, 0),
        (DigitKey::Two, 1),
        (DigitKey::Three, 2),
        (DigitKey::Four, 3),
        (DigitKey::Five, 4),
        (DigitKey::Six, 5),
        (DigitKey::Seven, 6),
        (DigitKey::Eight, 7),
        (DigitKey::Nine, 8),
        (DigitKey::Zero, 9),
    ]
}

/// The iteration budget that the number key at position `index` selects:
/// two to the power of `index + 2`.
pub fn iterations_for(index: u32) -> (n: u32)
    requires
        index < 30,
    ensures
        n as nat == pow2((index + 2) as nat),
        n >= 4,
{
    let mut n: u32 = 1;
    let mut e: u32 = 0;
    proof {
        lemma2_to64();
    }
    while e < index + 2
        invariant
            e <= index + 2,
            index < 30,
            n as nat == pow2(e as nat),
        decreases index + 2 - e,
    {
        proof {
            lemma_pow2_unfold((e + 1) as nat);
            lemma_pow2_strictly_increases((e + 1) as nat, 32);
            lemma2_to64();
        }
        n = 2 * n;
        e = e + 1;
    }
    proof {
        lemma2_to64();
        if index > 0 {
            lemma_pow2_strictly_increases(2, (index + 2) as nat);
        }
    }
    n
}

/// Position of the last pressed key among the first `n` number keys.
pub open spec fn last_pressed_among(digits: Seq<bool>, n: nat) -> Option<u32>
    decreases n,
{
    if n == 0 {
        None
    } else if digits[n - 1] {
        Some((n - 1) as u32)
    } else {
        last_pressed_among(digits, (n - 1) as nat)
    }
}

/// Position of the pressed number key that comes last in the row, if any
/// was pressed.
pub fn last_pressed(digits: &[bool; 10]) -> (key: Option<u32>)
    ensures
        key == last_pressed_among(digits@, 10),
        key matches Some(i) ==> i < 10 && digits[i as int],
        key is None ==> forall|j: int| 0 <= j < 10 ==> !digits[j],
        forall|j: int| 0 <= j < 10 && digits[j] ==> key is Some && key->0 >= j,
{
    let mut key: Option<u32> = None;
    let mut i: usize = 0;
    while i < 10
        invariant
            i <= 10,
            key == last_pressed_among(digits@, i as nat),
            key matches Some(k) ==> k < i && digits[k as int],
            key is None ==> forall|j: int| 0 <= j < i ==> !digits[j],
            forall|j: int| 0 <= j < i && digits[j] ==> key is Some && key->0 >= j,
        decreases 10 - i,
    {
        if digits[i] {
            key = Some(i as u32);
        }
        i = i + 1;
    }
    key
}

/// What the window and the input devices report for one frame.
#[derive(Clone, Copy, Debug, PartialEq, Eq)]
pub struct FrameInput {
    /// Width of the viewport in pixels.
    pub width: i32,
    /// Height of the viewport in pixels.
    pub height: i32,
    /// The window changed its size since the last frame.
    pub resized: bool,
    /// Which number keys were pressed, by position in the row.
    pub digits: [bool; 10],
    /// The key that swaps Mandelbrot and Julia mode was pressed.
    pub toggle_kind: bool,
    /// The key that switches live variation of the Julia parameter was
    /// pressed.
    pub toggle_vary: bool,
    /// Wheel movement in notches, a fixed-point number.
    pub wheel: Fixed,
    /// Column of the pixel under the cursor.
    pub mouse_x: i32,
    /// Row of the pixel under the cursor.
    pub mouse_y: i32,
    /// The left button is held.
    pub left_down: bool,
    /// The right button is held.
    pub right_down: bool,
    /// The right button went down in this frame.
    pub right_pressed: bool,
    /// The right button went up in this frame.
    pub right_released: bool,
    /// The key that saves an image was pressed.
    pub save: bool,
}

/// What the widgets drawn on top of the frame report.
#[derive(Clone, Copy, Debug, PartialEq, Eq, Structural)]
pub struct GuiInput {
    /// The button that selects Mandelbrot mode was clicked.
    pub mandelbrot_clicked: bool,
    /// The button that selects Julia mode was clicked.
    pub julia_clicked: bool,
    /// State of the box that switches live variation.
    pub vary_checked: bool,
}

/// What the front end has to do for one frame.
#[derive(Clone, Copy, Debug, PartialEq, Eq, Structural)]
pub struct FrameActions {
    /// The render target has to be made anew at the viewport's size.
    pub resize_target: bool,
    /// The iteration budget changed.
    pub budget_changed: bool,
    /// The fractal has to be rendered with the state's camera and
    /// parameters.
    pub render: bool,
    /// An image of `SAVE_WIDTH` by `SAVE_HEIGHT` pixels has to be rendered
    /// and written out.
    pub save_image: bool,
    /// A horizontal and a vertical line through the cursor have to be
    /// drawn.
    pub draw_selection_lines: bool,
}

/// The state that lasts from frame to frame.
#[derive(Clone, Copy, Debug, PartialEq, Eq, Structural)]
pub struct ViewState {
    pub cam: Camera,
    pub params: FractalParams,
    /// While set, holding the right button moves the Julia parameter with
    /// the cursor.
    pub vary_julia: bool,
    /// Column of the pixel that was under the cursor in the last frame.
    pub mouse_x: i32,
    /// Row of the pixel that was under the cursor in the last frame.
    pub mouse_y: i32,
    /// Something changed since the fractal was last rendered.
    pub rerender: bool,
}

impl ViewState {
    /// A state is well formed when its camera and its parameters are.
    pub open spec fn wf(self) -> bool {
        self.cam.wf() && self.params.wf()
    }

    /// The state in which a session starts.
    pub open spec fn spec_initial(mouse_x: i32, mouse_y: i32) -> ViewState {
        ViewState {
            cam: Camera { center_x: START_CENTER_X, center_y: 0, zoom: START_ZOOM },
            params: FractalParams {
                max_iterations: START_ITERATIONS,
                mode: ShaderKind::Mandelbrot,
                julia_c: Complex { re: 0, im: 0 },
            },
            vary_julia: false,
            mouse_x,
            mouse_y,
            rerender: true,
        }
    }

    /// The state in which a session starts: the camera centred on minus one
    /// half with a zoom of two and a half, a budget of 32 iterations,
    /// Mandelbrot mode, and a first rendering due.
    pub fn initial(mouse_x: i32, mouse_y: i32) -> (state: ViewState)
        ensures
            state == Self::spec_initial(mouse_x, mouse_y),
            state.wf(),
    {
        ViewState {
            cam: Camera { center_x: START_CENTER_X, center_y: 0, zoom: START_ZOOM },
            params: FractalParams {
                max_iterations: START_ITERATIONS,
                mode: ShaderKind::Mandelbrot,
                julia_c: Complex { re: 0, im: 0 },
            },
            vary_julia: false,
            mouse_x,
            mouse_y,
            rerender: true,
        }
    }

    /// Whether the state is well formed.
    pub fn is_valid(&self) -> (ok: bool)
        ensures
            ok == self.wf(),
    {
        self.cam.is_valid() && self.params.is_valid()
    }

    /// The state after the keys of the frame: the last pressed number key
    /// sets the budget, the mode key swaps the mode, the variation key
    /// switches live variation. A resized window asks for a rendering.
    pub open spec fn after_keys(self, input: FrameInput) -> ViewState {
        let digit = last_pressed_among(input.digits@, 10);
        ViewState {
            params: FractalParams {
                max_iterations: match digit {
                    Some(i) => pow2((i + 2) as nat) as u32,
                    None => self.params.max_iterations,
                },
                mode: if input.toggle_kind {
                    self.params.mode.spec_toggled()
                } else {
                    self.params.mode
                },
                julia_c: self.params.julia_c,
            },
            vary_julia: self.vary_julia != input.toggle_vary,
            rerender: self.rerender || input.resized || digit is Some || input.toggle_kind,
            ..self
        }
    }

    /// The state after the wheel: a wheel that moved zooms at the cursor.
    pub open spec fn after_wheel(self, input: FrameInput) -> ViewState {
        if input.wheel != 0 {
            ViewState {
                cam: self.cam.spec_zoomed(
                    input.wheel,
                    input.mouse_x as int,
                    input.mouse_y as int,
                    input.width as int,
                    input.height as int,
                ),
                rerender: true,
                ..self
            }
        } else {
            self
        }
    }

    /// The state after a drag: with the left button held, a cursor that
    /// moved since the last frame pans the camera by as much.
    pub open spec fn after_drag(self, input: FrameInput) -> ViewState {
        if input.left_down && (input.mouse_x != self.mouse_x || input.mouse_y != self.mouse_y) {
            ViewState {
                cam: self.cam.spec_panned(
                    input.mouse_x - self.mouse_x,
                    input.mouse_y - self.mouse_y,
                    input.width as int,
                ),
                rerender: true,
                ..self
            }
        } else {
            self
        }
    }

    /// The state with the plane point under the cursor as Julia parameter,
    /// in Julia mode.
    pub open spec fn with_cursor_as_parameter(self, input: FrameInput) -> ViewState {
        ViewState {
            params: FractalParams {
                max_iterations: self.params.max_iterations,
                mode: ShaderKind::Julia,
                julia_c: self.cam.spec_transform(
                    input.mouse_x as int,
                    input.mouse_y as int,
                    input.width as int,
                    input.height as int,
                ).stored(),
            },
            rerender: true,
            ..self
        }
    }

    /// The state after the right button. With live variation, holding the
    /// button sets the Julia parameter from the cursor. Without, pressing
    /// the button goes back to Mandelbrot mode, to choose a point on it, and
    /// letting it go sets the Julia parameter from the cursor.
    pub open spec fn after_right_button(self, input: FrameInput) -> ViewState {
        if self.vary_julia {
            if input.right_down {
                self.with_cursor_as_parameter(input)
            } else {
                self
            }
        } else {
            let pressed = if input.right_pressed {
                ViewState {
                    params: FractalParams { mode: ShaderKind::Mandelbrot, ..self.params },
                    rerender: true,
                    ..self
                }
            } else {
                self
            };
            if input.right_released {
                pressed.with_cursor_as_parameter(input)
            } else {
                pressed
            }
        }
    }

    /// The state after all input of the frame, before anything is drawn.
    pub open spec fn after_input(self, input: FrameInput) -> ViewState {
        self.after_keys(input).after_wheel(input).after_drag(input).after_right_button(input)
    }

    /// The state that `begin_frame` returns: the input is applied, the
    /// cursor's position is remembered, and no rendering is due any more.
    pub open spec fn spec_begin_frame(self, input: FrameInput) -> ViewState {
        ViewState {
            mouse_x: input.mouse_x,
            mouse_y: input.mouse_y,
            rerender: false,
            ..self.after_input(input)
        }
    }

    /// The actions that `begin_frame` returns.
    pub open spec fn spec_actions(self, input: FrameInput) -> FrameActions {
        FrameActions {
            resize_target: input.resized,
            budget_changed: last_pressed_among(input.digits@, 10) is Some,
            render: self.after_input(input).rerender,
            save_image: input.save,
            draw_selection_lines: !self.after_input(input).vary_julia && input.right_down,
        }
    }

    /// Applies one frame's input to the state, and says what has to be drawn.
    pub fn begin_frame(&self, input: &FrameInput) -> (out: (ViewState, FrameActions))
        requires
            self.wf(),
            input.width > 0,
        ensures
            out.0 == self.spec_begin_frame(*input),
            out.1 == self.spec_actions(*input),
            out.0.wf(),
    {
        let w: i32 = input.width;
        let h: i32 = input.height;
        let mut cam: Camera = self.cam;
        let mut max_iterations: u32 = self.params.max_iterations;
        let mut mode: ShaderKind = self.params.mode;
        let mut julia_c: Complex = self.params.julia_c;
        let mut vary_julia: bool = self.vary_julia;
        let mut rerender: bool = self.rerender || input.resized;

        let digit: Option<u32> = last_pressed(&input.digits);
        if let Some(i) = digit {
            max_iterations = iterations_for(i);
            rerender = true;
        }
        if input.toggle_kind {
            mode = mode.toggled();
            rerender = true;
        }
        if input.toggle_vary {
            vary_julia = !vary_julia;
        }
        proof {
            lemma2_to64();
            if digit is Some {
                lemma_pow2_strictly_increases((digit->0 + 2) as nat, 32);
            }
        }

        if input.wheel != 0 {
            cam = cam.zoomed(input.wheel, input.mouse_x, input.mouse_y, w, h);
            rerender = true;
        }

        if input.left_down && (input.mouse_x != self.mouse_x || input.mouse_y != self.mouse_y) {
            let dx: i64 = input.mouse_x as i64 - self.mouse_x as i64;
            let dy: i64 = input.mouse_y as i64 - self.mouse_y as i64;
            cam = cam.panned(dx, dy, w);
            rerender = true;
        }

        let mut draw_selection_lines: bool = false;
        if vary_julia {
            if input.right_down {
                julia_c = cam.transform(input.mouse_x, input.mouse_y, w, h);
                mode = ShaderKind::Julia;
                rerender = true;
            }
        } else {
            if input.right_pressed {
                mode = ShaderKind::Mandelbrot;
                rerender = true;
            }
            draw_selection_lines = input.right_down;
            if input.right_released {
                julia_c = cam.transform(input.mouse_x, input.mouse_y, w, h);
                mode = ShaderKind::Julia;
                rerender = true;
            }
        }
        assert(julia_c == julia_c@.stored());

        let state = ViewState {
            cam,
            params: FractalParams { max_iterations, mode, julia_c },
            vary_julia,
            mouse_x: input.mouse_x,
            mouse_y: input.mouse_y,
            rerender: false,
        };
        let actions = FrameActions {
            resize_target: input.resized,
            budget_changed: digit.is_some(),
            render: rerender,
            save_image: input.save,
            draw_selection_lines,
        };
        (state, actions)
    }

    /// The state that `end_frame` returns: a clicked mode button selects its
    /// mode and asks for a rendering, the Mandelbrot button first; the box
    /// sets live variation.
    pub open spec fn spec_end_frame(self, gui: GuiInput) -> ViewState {
        ViewState {
            params: FractalParams {
                mode: if gui.mandelbrot_clicked {
                    ShaderKind::Mandelbrot
                } else if gui.julia_clicked {
                    ShaderKind::Julia
                } else {
                    self.params.mode
                },
                ..self.params
            },
            vary_julia: gui.vary_checked,
            rerender: self.rerender || gui.mandelbrot_clicked || gui.julia_clicked,
            ..self
        }
    }

    /// Applies what the widgets reported while the frame was drawn.
    pub fn end_frame(&self, gui: &GuiInput) -> (state: ViewState)
        ensures
            state == self.spec_end_frame(*gui),
            self.wf() ==> state.wf(),
    {
        let mode: ShaderKind = if gui.mandelbrot_clicked {
            ShaderKind::Mandelbrot
        } else if gui.julia_clicked {
            ShaderKind::Julia
        } else {
            self.params.mode
        };
        ViewState {
            cam: self.cam,
            params: FractalParams {
                max_iterations: self.params.max_iterations,
                mode,
                julia_c: self.params.julia_c,
            },
            vary_julia: gui.vary_checked,
            mouse_x: self.mouse_x,
            mouse_y: self.mouse_y,
            rerender: self.rerender || gui.mandelbrot_clicked || gui.julia_clicked,
        }
    }
}

/// What a renderer is handed for one rendering: the viewport's
/// size, the budget, the camera's centre and zoom and the Julia parameter,
/// each coordinate split in two parts, and the mode as a number.
#[derive(Clone, Copy, Debug, PartialEq, Eq)]
pub struct FrameUniforms {
    pub width: i32,
    pub height: i32,
    pub max_iter: u32,
    /// Real part of the centre, imaginary part of the centre, zoom.
    pub cam: [Split; 3],
    /// Real and imaginary part of the Julia parameter.
    pub animation: [Split; 2],
    /// Zero for Mandelbrot, one for Julia.
    pub kind: i32,
}

impl ViewState {
    /// The values that a renderer needs to draw this state on a viewport of
    /// the given size.
    pub fn uniforms(&self, width: i32, height: i32) -> (u: FrameUniforms)
        ensures
            u.width == width,
            u.height == height,
            u.max_iter == self.params.max_iterations,
            u.cam[0] == spec_split(self.cam.center_x),
            u.cam[1] == spec_split(self.cam.center_y),
            u.cam[2] == spec_split(self.cam.zoom),
            u.animation[0] == spec_split(self.params.julia_c.re),
            u.animation[1] == spec_split(self.params.julia_c.im),
            u.kind == self.params.mode.spec_index(),
    {
        FrameUniforms {
            width,
            height,
            max_iter: self.params.max_iterations,
            cam: [split(self.cam.center_x), split(self.cam.center_y), split(self.cam.zoom)],
            animation: [split(self.params.julia_c.re), split(self.params.julia_c.im)],
            kind: self.params.mode.index(),
        }
    }
}

/// An input in which no key, button or wheel did anything and the window
/// kept its size.
pub open spec fn quiet(input: FrameInput) -> bool {
    &&& !input.resized
    &&& forall|i: int| 0 <= i < 10 ==> !input.digits[i]
    &&& !input.toggle_kind
    &&& !input.toggle_vary
    &&& input.wheel == 0
    &&& !input.left_down
    &&& !input.right_down
    &&& !input.right_pressed
    &&& !input.right_released
}

/// Where none of the first `n` keys is pressed, none is the last pressed.
proof fn lemma_none_pressed(digits: Seq<bool>, n: nat)
    requires
        forall|i: int| 0 <= i < n ==> !digits[i],
    ensures
        last_pressed_among(digits, n) is None,
    decreases n,
{
    if n > 0 {
        lemma_none_pressed(digits, (n - 1) as nat);
    }
}

/// The last pressed key is a pressed key, and no key after it is pressed.
proof fn lemma_last_pressed(digits: Seq<bool>, n: nat)
    requires
        n <= 10,
    ensures
        last_pressed_among(digits, n) matches Some(i) ==> i < n && digits[i as int] && forall|
            j: int,
        | i < j < n ==> !digits[j],
        last_pressed_among(digits, n) is None ==> forall|j: int| 0 <= j < n ==> !digits[j],
    decreases n,
{
    if n > 0 {
        lemma_last_pressed(digits, (n - 1) as nat);
    }
}

/// A quiet frame leaves the view as it is: camera, parameters and live
/// variation stay, and the fractal is rendered only if a rendering was
/// already due.
pub proof fn lemma_quiet_frame_keeps_view(state: ViewState, input: FrameInput)
    requires
        quiet(input),
    ensures
        state.spec_begin_frame(input).cam == state.cam,
        state.spec_begin_frame(input).params == state.params,
        state.spec_begin_frame(input).vary_julia == state.vary_julia,
        state.spec_actions(input).render == state.rerender,
        !state.spec_actions(input).resize_target,
        !state.spec_actions(input).budget_changed,
        !state.spec_actions(input).draw_selection_lines,
{
    lemma_none_pressed(input.digits@, 10);
}

/// Nothing changes unseen: a frame that changes the camera or the
/// parameters renders the fractal, and after every frame no rendering is
/// due.
pub proof fn lemma_changes_are_rendered(state: ViewState, input: FrameInput)
    ensures
        !state.spec_actions(input).render ==> state.spec_begin_frame(input).cam == state.cam
            && state.spec_begin_frame(input).params == state.params,
        state.rerender ==> state.spec_actions(input).render,
        !state.spec_begin_frame(input).rerender,
        state.spec_begin_frame(input).mouse_x == input.mouse_x,
        state.spec_begin_frame(input).mouse_y == input.mouse_y,
{
}

/// Every frame keeps the state well formed: the zoom stays positive and the
/// budget stays positive.
pub proof fn lemma_frame_keeps_wf(state: ViewState, input: FrameInput)
    requires
        state.wf(),
        input.width > 0,
    ensures
        state.spec_begin_frame(input).wf(),
{
    lemma_last_pressed(input.digits@, 10);
    lemma2_to64();
    let keyed = state.after_keys(input);
    assert(keyed.params.max_iterations > 0);
    crate::camera::lemma_zoom_direction(
        keyed.cam,
        input.wheel,
        input.mouse_x as int,
        input.mouse_y as int,
        input.width as int,
        input.height as int,
    );
}

/// The number key at position `i` of the row, when it is the last one
/// pressed, sets the budget to two to the power of `i + 2`: four for the
/// first key, 2048 for the tenth.
pub proof fn lemma_digit_sets_budget(state: ViewState, input: FrameInput, i: u32)
    requires
        last_pressed_among(input.digits@, 10) == Some(i),
    ensures
        i < 10,
        state.spec_begin_frame(input).params.max_iterations == pow2((i + 2) as nat),
        4 <= state.spec_begin_frame(input).params.max_iterations <= 2048,
        state.spec_actions(input).render,
        state.spec_actions(input).budget_changed,
{
    lemma_last_pressed(input.digits@, 10);
    lemma2_to64();
}

} // verus!
