//! The input tracker: turns raw pointer, button and wheel signals into
//! semantic navigation events.
//!
//! Per button the tracker remembers where the button went down (a sentinel
//! position means released).  A release close enough to the press — by
//! Manhattan distance, within the configured click threshold — emits a
//! click; a cursor move while a button is held emits exactly one drag, for
//! the highest-priority held button (left over right over middle); wheel
//! turns are rate-limited by a debounce window and emit zoom factors.  The
//! whole step, state in and state out, is stated by [`spec_step`].

use vstd::prelude::*;
use crate::fx::{Fx, FX_ONE, fmul_v, sat32};
use crate::event::{
    ClickEvent, DragEvent, EventHandler, HandlerStore, MapEvent, MouseButton, ZoomEvent,
    trigger_event,
};

verus! {

/// A position on the screen, in pixels.
#[derive(Clone, Copy, Debug, PartialEq, Eq, Structural)]
pub struct PixelPoint {
    pub x: i32,
    pub y: i32,
}

/// The wheel's base zoom-in factor, 1.1, in 2^-32 units (rounded down).
pub const ZOOM_IN_STEP: i64 = 4724464025;

/// The wheel's base zoom-out factor, 1/1.1, in 2^-32 units (rounded down).
pub const ZOOM_OUT_STEP: i64 = 3904515723;

/// The position that marks a button as released.
pub open spec fn spec_sentinel() -> PixelPoint {
    PixelPoint { x: i32::MIN, y: i32::MIN }
}

/// Manhattan distance between two pixel positions.
pub open spec fn spec_displacement(a: PixelPoint, b: PixelPoint) -> int {
    iabs(a.x - b.x) + iabs(a.y - b.y)
}

/// Absolute value.
pub open spec fn iabs(v: int) -> int {
    if v >= 0 {
        v
    } else {
        -v
    }
}

/// Manhattan distance between two pixel positions.
pub fn displacement(p1: PixelPoint, p2: PixelPoint) -> (r: i64)
    ensures
        r == spec_displacement(p1, p2),
{
    let dx = (p1.x as i64) - (p2.x as i64);
    let dy = (p1.y as i64) - (p2.y as i64);
    let adx = if dx >= 0 {
        dx
    } else {
        -dx
    };
    let ady = if dy >= 0 {
        dy
    } else {
        -dy
    };
    adx + ady
}

/// Where each tracked button went down; the sentinel marks it released.
#[derive(Clone, Copy, Debug, PartialEq, Eq, Structural)]
pub struct MouseState {
    pub cursor_position: PixelPoint,
    pub left_button_down_position: PixelPoint,
    pub middle_button_down_position: PixelPoint,
    pub right_button_down_position: PixelPoint,
}

/// The mouse state with the given button's down-position replaced; other
/// buttons are not tracked and leave the state unchanged.
pub open spec fn spec_capture(m: MouseState, button: MouseButton, val: PixelPoint) -> MouseState {
    match button {
        MouseButton::Left => MouseState { left_button_down_position: val, ..m },
        MouseButton::Right => MouseState { right_button_down_position: val, ..m },
        MouseButton::Middle => MouseState { middle_button_down_position: val, ..m },
        MouseButton::Other(_) => m,
    }
}

impl MouseState {
    /// The recorded down-position of a button; the sentinel for untracked
    /// buttons.
    pub open spec fn spec_down(self, button: MouseButton) -> PixelPoint {
        match button {
            MouseButton::Left => self.left_button_down_position,
            MouseButton::Right => self.right_button_down_position,
            MouseButton::Middle => self.middle_button_down_position,
            MouseButton::Other(_) => spec_sentinel(),
        }
    }

    /// Whether the button is currently held.
    pub open spec fn spec_pressed(self, button: MouseButton) -> bool {
        self.spec_down(button).x != i32::MIN
    }

    /// Records the cursor position as the button's down-position.
    pub fn capture_button_pressed(&mut self, button: MouseButton)
        ensures
            *final(self) == spec_capture(*old(self), button, old(self).cursor_position),
    {
        let at = self.cursor_position;
        self.capture_button_position(button, at);
    }

    /// Marks the button as released.
    pub fn capture_button_released(&mut self, button: MouseButton)
        ensures
            *final(self) == spec_capture(*old(self), button, spec_sentinel()),
    {
        self.capture_button_position(button, PixelPoint { x: i32::MIN, y: i32::MIN });
    }

    /// Replaces the button's down-position.
    pub fn capture_button_position(&mut self, button: MouseButton, val: PixelPoint)
        ensures
            *final(self) == spec_capture(*old(self), button, val),
    {
        match button {
            MouseButton::Left => self.left_button_down_position = val,
            MouseButton::Right => self.right_button_down_position = val,
            MouseButton::Middle => self.middle_button_down_position = val,
            MouseButton::Other(_) => {},
        }
    }

    /// The recorded down-position of the button.
    pub fn button_pressed_position(&self, button: MouseButton) -> (r: PixelPoint)
        ensures
            r == self.spec_down(button),
    {
        match button {
            MouseButton::Left => self.left_button_down_position,
            MouseButton::Right => self.right_button_down_position,
            MouseButton::Middle => self.middle_button_down_position,
            MouseButton::Other(_) => PixelPoint { x: i32::MIN, y: i32::MIN },
        }
    }

    /// Whether the button is currently held.
    pub fn button_pressed(&self, button: MouseButton) -> (r: bool)
        ensures
            r == self.spec_pressed(button),
    {
        self.button_pressed_position(button).x != i32::MIN
    }

    /// Whether any tracked button is currently held.
    pub fn any_button_pressed(&self) -> (r: bool)
        ensures
            r == (self.spec_pressed(MouseButton::Left) || self.spec_pressed(MouseButton::Middle)
                || self.spec_pressed(MouseButton::Right)),
    {
        self.button_pressed(MouseButton::Left) || self.button_pressed(MouseButton::Middle)
            || self.button_pressed(MouseButton::Right)
    }
}

impl Default for MouseState {
    /// Cursor at the origin, every button released.
    fn default() -> (r: Self)
        ensures
            r.cursor_position == (PixelPoint { x: 0, y: 0 }),
            r.left_button_down_position == spec_sentinel(),
            r.middle_button_down_position == spec_sentinel(),
            r.right_button_down_position == spec_sentinel(),
    {
        Self {
            cursor_position: PixelPoint { x: 0, y: 0 },
            left_button_down_position: PixelPoint { x: i32::MIN, y: i32::MIN },
            middle_button_down_position: PixelPoint { x: i32::MIN, y: i32::MIN },
            right_button_down_position: PixelPoint { x: i32::MIN, y: i32::MIN },
        }
    }
}

/// The per-viewport input state: mouse tracking, the frame size last told
/// to the viewport, and when the last zoom event was emitted.
#[derive(Clone, Copy, Debug)]
pub struct ControlState {
    pub mouse_state: MouseState,
    pub map_size: (u32, u32),
    pub last_zoom_time: u64,
}

impl Default for ControlState {
    /// Fresh input state; the zoom debounce clock starts at zero.
    fn default() -> (r: Self)
        ensures
            r.mouse_state.cursor_position == (PixelPoint { x: 0, y: 0 }),
            r.mouse_state.left_button_down_position == spec_sentinel(),
            r.mouse_state.middle_button_down_position == spec_sentinel(),
            r.mouse_state.right_button_down_position == spec_sentinel(),
            r.map_size == (0u32, 0u32),
            r.last_zoom_time == 0,
    {
        Self { mouse_state: MouseState::default(), map_size: (0, 0), last_zoom_time: 0 }
    }
}

/// Tunable input policy: the wheel-speed exponent applied to the base zoom
/// factor, the zoom debounce window in milliseconds, and the largest
/// Manhattan displacement that still counts as a click.
#[derive(Clone, Copy, Debug, PartialEq, Eq, Structural)]
pub struct MapControlSettings {
    pub mouse_wheel_speed: u32,
    pub zoom_delay: u32,
    pub max_click_displacement: i32,
}

impl Default for MapControlSettings {
    /// Wheel speed 2, a 50 ms debounce window, 3 px click threshold.
    fn default() -> (r: Self)
        ensures
            r.mouse_wheel_speed == 2,
            r.zoom_delay == 50,
            r.max_click_displacement == 3,
    {
        Self { mouse_wheel_speed: 2, zoom_delay: 50, max_click_displacement: 3 }
    }
}

/// Whether a button signal is a press or a release.
#[derive(Clone, Copy, Debug, PartialEq, Eq, Structural)]
pub enum ElementState {
    Pressed,
    Released,
}

/// A wheel turn: line-based or pixel-based, the vertical component in
/// thousandths (only the sign matters to the tracker).
#[derive(Clone, Copy, Debug, PartialEq, Eq, Structural)]
pub enum ScrollDelta {
    LineDelta(i64),
    PixelDelta(i64),
}

/// One raw input signal from the platform.
#[derive(Clone, Copy, Debug, PartialEq, Eq, Structural)]
pub enum InputEvent {
    MouseInput { button: MouseButton, state: ElementState },
    CursorMoved { x: i32, y: i32 },
    MouseWheel { delta: ScrollDelta },
}

/// The vertical component of a wheel turn.
pub open spec fn spec_scroll_dy(delta: ScrollDelta) -> int {
    match delta {
        ScrollDelta::LineDelta(dy) => dy as int,
        ScrollDelta::PixelDelta(dy) => dy as int,
    }
}

/// The base factor raised to the wheel-speed exponent, in fixed-point
/// multiplication steps.
pub open spec fn spec_wheel_factor(base: int, n: nat) -> int
    decreases n,
{
    if n == 0 {
        FX_ONE as int
    } else {
        fmul_v(spec_wheel_factor(base, (n - 1) as nat), base)
    }
}

/// The base factor raised to the wheel-speed exponent.
pub fn wheel_factor(base: Fx, n: u32) -> (r: Fx)
    ensures
        r.v() == spec_wheel_factor(base.v(), n as nat),
{
    let mut acc = Fx::from_bits(FX_ONE);
    let mut k: u32 = 0;
    while k < n
        invariant
            k <= n,
            acc.v() == spec_wheel_factor(base.v(), k as nat),
        decreases n - k,
    {
        acc = acc.times(base);
        k += 1;
    }
    acc
}

/// The drag event a cursor move emits, if a button is held: the delta from
/// the previous cursor position (vertical component flipped to the world's
/// upward convention), attributed to the highest-priority held button —
/// left over right over middle, one event only.
pub open spec fn spec_drag_event(m: MouseState, x: i32, y: i32) -> Option<MapEvent> {
    let dx = sat32(x - m.cursor_position.x) as i32;
    let dy = sat32(-(y - m.cursor_position.y)) as i32;
    let at = PixelPoint { x, y };
    if m.spec_pressed(MouseButton::Left) {
        Some(
            MapEvent::Drag(
                DragEvent { dx, dy, button: MouseButton::Left, curr_cursor_position: at },
            ),
        )
    } else if m.spec_pressed(MouseButton::Right) {
        Some(
            MapEvent::Drag(
                DragEvent { dx, dy, button: MouseButton::Right, curr_cursor_position: at },
            ),
        )
    } else if m.spec_pressed(MouseButton::Middle) {
        Some(
            MapEvent::Drag(
                DragEvent { dx, dy, button: MouseButton::Middle, curr_cursor_position: at },
            ),
        )
    } else {
        None
    }
}

/// One full tracker step: the next input state and the semantic event it
/// emits, if any.
///
/// - A press records the cursor as the button's down-position.
/// - A release emits a click exactly when the Manhattan displacement from
///   the down-position is within the threshold, and always resets the
///   button.
/// - A cursor move emits at most one drag ([`spec_drag_event`]) and then
///   records the new cursor position.
/// - A wheel turn within the debounce window, or with a zero vertical
///   component, is ignored without touching the timestamp; otherwise the
///   turn's sign picks the zoom-in or zoom-out base factor, the wheel-speed
///   exponent is applied, and the timestamp advances to `now_ms`.
pub open spec fn spec_step(
    settings: MapControlSettings,
    s: ControlState,
    event: InputEvent,
    now_ms: u64,
) -> (ControlState, Option<MapEvent>) {
    match event {
        InputEvent::MouseInput { button, state: ElementState::Pressed } => (
            ControlState {
                mouse_state: spec_capture(s.mouse_state, button, s.mouse_state.cursor_position),
                ..s
            },
            None,
        ),
        InputEvent::MouseInput { button, state: ElementState::Released } => (
            ControlState { mouse_state: spec_capture(s.mouse_state, button, spec_sentinel()), ..s },
            if spec_displacement(s.mouse_state.spec_down(button), s.mouse_state.cursor_position)
                <= settings.max_click_displacement as int {
                Some(
                    MapEvent::Click(
                        ClickEvent { cursor_position: s.mouse_state.cursor_position, button },
                    ),
                )
            } else {
                None
            },
        ),
        InputEvent::CursorMoved { x, y } => (
            ControlState {
                mouse_state: MouseState {
                    cursor_position: PixelPoint { x, y },
                    ..s.mouse_state
                },
                ..s
            },
            spec_drag_event(s.mouse_state, x, y),
        ),
        InputEvent::MouseWheel { delta } => {
            let elapsed: int = if now_ms >= s.last_zoom_time {
                now_ms - s.last_zoom_time
            } else {
                0
            };
            if elapsed < settings.zoom_delay as int {
                (s, None)
            } else {
                let dy = spec_scroll_dy(delta);
                if dy == 0 {
                    (s, None)
                } else {
                    let base: int = if dy > 0 {
                        ZOOM_IN_STEP as int
                    } else {
                        ZOOM_OUT_STEP as int
                    };
                    let factor = Fx {
                        bits: spec_wheel_factor(base, settings.mouse_wheel_speed as nat) as i64,
                    };
                    (
                        ControlState { last_zoom_time: now_ms, ..s },
                        Some(
                            MapEvent::Zoom(
                                ZoomEvent {
                                    delta: factor,
                                    cursor_position: s.mouse_state.cursor_position,
                                },
                            ),
                        ),
                    )
                }
            }
        },
    }
}

/// Click threshold law: for every settings, tracker state, button and
/// time, a release emits a click — carrying the cursor position and the
/// button — exactly when the Manhattan displacement between the button's
/// recorded down-position and the cursor position is within the
/// threshold, inclusive; and the button's down-position resets either way.
pub proof fn lemma_click_threshold(
    settings: MapControlSettings,
    s: ControlState,
    button: MouseButton,
    now_ms: u64,
)
    ensures
        ({
            let (s2, em) = spec_step(
                settings,
                s,
                InputEvent::MouseInput { button, state: ElementState::Released },
                now_ms,
            );
            &&& (em is Some <==> spec_displacement(
                s.mouse_state.spec_down(button),
                s.mouse_state.cursor_position,
            ) <= settings.max_click_displacement as int)
            &&& (em is Some ==> em == Some(
                MapEvent::Click(
                    ClickEvent { cursor_position: s.mouse_state.cursor_position, button },
                ),
            ))
            &&& s2.mouse_state == spec_capture(s.mouse_state, button, spec_sentinel())
        }),
{
}

/// Debounce law: with a positive debounce window, a wheel turn arriving
/// before the window has elapsed since the last emitted zoom is ignored
/// entirely — no event, and the whole tracker state, the timestamp
/// included, stays as it was.
pub proof fn lemma_debounce(
    settings: MapControlSettings,
    s: ControlState,
    delta: ScrollDelta,
    now_ms: u64,
)
    requires
        settings.zoom_delay >= 1,
        now_ms < s.last_zoom_time + settings.zoom_delay,
    ensures
        spec_step(settings, s, InputEvent::MouseWheel { delta }, now_ms) == (
            s,
            Option::<MapEvent>::None,
        ),
{
}

/// The dispatcher that feeds raw input through the tracker and routes the
/// emitted event to the registered handlers.
#[derive(Clone, Copy, Debug, PartialEq, Eq, Structural)]
pub struct MapEventDispatcher {
    pub settings: MapControlSettings,
}

impl MapEventDispatcher {
    /// A dispatcher with the given settings.
    pub fn new(settings: MapControlSettings) -> (r: Self)
        ensures
            r.settings == settings,
    {
        Self { settings }
    }

    /// Feeds one raw input signal through the tracker ([`spec_step`]); if a
    /// semantic event comes out, it is dispatched to the registered
    /// handlers before this call returns.  A signal that emits nothing
    /// leaves the registry untouched.
    pub fn handle_event<H: EventHandler>(
        &self,
        state: &mut ControlState,
        store: &mut HandlerStore,
        handler: &mut H,
        event: &InputEvent,
        now_ms: u64,
    ) -> (emitted: Option<MapEvent>)
        requires
            old(store).wf(),
        ensures
            final(store).wf(),
            ({
                let (s2, em) = spec_step(self.settings, *old(state), *event, now_ms);
                *final(state) == s2 && emitted == em
            }),
            emitted is None ==> *final(store) == *old(store),
            emitted is None ==> *final(handler) == *old(handler),
    {
        match event {
            InputEvent::MouseInput { button, state: bstate } => match bstate {
                ElementState::Pressed => {
                    self.mouse_pressed(state, *button);
                    None
                },
                ElementState::Released => self.mouse_released(state, store, handler, *button),
            },
            InputEvent::CursorMoved { x, y } => self.cursor_moved(state, store, handler, *x, *y),
            InputEvent::MouseWheel { delta } => self.wheel(state, store, handler, *delta, now_ms),
        }
    }

    /// A press: record where the button went down.
    fn mouse_pressed(&self, state: &mut ControlState, button: MouseButton)
        ensures
            *final(state) == (ControlState {
                mouse_state: spec_capture(
                    old(state).mouse_state,
                    button,
                    old(state).mouse_state.cursor_position,
                ),
                ..*old(state)
            }),
    {
        state.mouse_state.capture_button_pressed(button);
    }

    /// A release: emit a click when the press and release lie close enough
    /// together, and reset the button either way.
    fn mouse_released<H: EventHandler>(
        &self,
        state: &mut ControlState,
        store: &mut HandlerStore,
        handler: &mut H,
        button: MouseButton,
    ) -> (emitted: Option<MapEvent>)
        requires
            old(store).wf(),
        ensures
            final(store).wf(),
            *final(state) == (ControlState {
                mouse_state: spec_capture(old(state).mouse_state, button, spec_sentinel()),
                ..*old(state)
            }),
            emitted == spec_step(
                self.settings,
                *old(state),
                InputEvent::MouseInput { button, state: ElementState::Released },
                0,
            ).1,
            emitted is None ==> *final(store) == *old(store),
            emitted is None ==> *final(handler) == *old(handler),
    {
        let down = state.mouse_state.button_pressed_position(button);
        let at = state.mouse_state.cursor_position;
        let mut emitted: Option<MapEvent> = None;
        if displacement(down, at) <= self.settings.max_click_displacement as i64 {
            let ev = MapEvent::Click(ClickEvent { cursor_position: at, button });
            trigger_event(store, handler, &ev);
            emitted = Some(ev);
        }
        state.mouse_state.capture_button_released(button);
        emitted
    }

    /// A move: emit at most one drag for the highest-priority held button,
    /// then record the new cursor position.
    fn cursor_moved<H: EventHandler>(
        &self,
        state: &mut ControlState,
        store: &mut HandlerStore,
        handler: &mut H,
        x: i32,
        y: i32,
    ) -> (emitted: Option<MapEvent>)
        requires
            old(store).wf(),
        ensures
            final(store).wf(),
            *final(state) == (ControlState {
                mouse_state: MouseState {
                    cursor_position: PixelPoint { x, y },
                    ..old(state).mouse_state
                },
                ..*old(state)
            }),
            emitted == spec_drag_event(old(state).mouse_state, x, y),
            emitted is None ==> *final(store) == *old(store),
            emitted is None ==> *final(handler) == *old(handler),
    {
        let mut emitted: Option<MapEvent> = None;
        if state.mouse_state.any_button_pressed() {
            let prev = state.mouse_state.cursor_position;
            let dx = crate::fx::sat_to_i32((x as i128) - (prev.x as i128));
            let dy = crate::fx::sat_to_i32(-((y as i128) - (prev.y as i128)));
            let at = PixelPoint { x, y };
            let button = if state.mouse_state.button_pressed(MouseButton::Left) {
                MouseButton::Left
            } else if state.mouse_state.button_pressed(MouseButton::Right) {
                MouseButton::Right
            } else {
                MouseButton::Middle
            };
            let ev = MapEvent::Drag(DragEvent { dx, dy, button, curr_cursor_position: at });
            trigger_event(store, handler, &ev);
            emitted = Some(ev);
        }
        state.mouse_state.cursor_position = PixelPoint { x, y };
        emitted
    }

    /// A wheel turn: ignored inside the debounce window or with no vertical
    /// component; otherwise the sign picks the base factor, the wheel-speed
    /// exponent is applied, and a zoom is emitted.
    fn wheel<H: EventHandler>(
        &self,
        state: &mut ControlState,
        store: &mut HandlerStore,
        handler: &mut H,
        delta: ScrollDelta,
        now_ms: u64,
    ) -> (emitted: Option<MapEvent>)
        requires
            old(store).wf(),
        ensures
            final(store).wf(),
            ({
                let (s2, em) = spec_step(
                    self.settings,
                    *old(state),
                    InputEvent::MouseWheel { delta },
                    now_ms,
                );
                *final(state) == s2 && emitted == em
            }),
            emitted is None ==> *final(store) == *old(store),
            emitted is None ==> *final(handler) == *old(handler),
    {
        let elapsed = if now_ms >= state.last_zoom_time {
            now_ms - state.last_zoom_time
        } else {
            0
        };
        if elapsed < self.settings.zoom_delay as u64 {
            return None;
        }
        let dy = match delta {
            ScrollDelta::LineDelta(v) => v,
            ScrollDelta::PixelDelta(v) => v,
        };
        if dy == 0 {
            return None;
        }
        let base = if dy > 0 {
            Fx::from_bits(ZOOM_IN_STEP)
        } else {
            Fx::from_bits(ZOOM_OUT_STEP)
        };
        let factor = wheel_factor(base, self.settings.mouse_wheel_speed);
        let ev = MapEvent::Zoom(
            ZoomEvent { delta: factor, cursor_position: state.mouse_state.cursor_position },
        );
        trigger_event(store, handler, &ev);
        state.last_zoom_time = now_ms;
        Some(ev)
    }
}

} // verus!
