//! The default navigation module: left-drag pans, middle-drag tilts,
//! right-drag yaws around the view center, and the wheel zooms at the
//! cursor.
//!
//! The module owns the viewport it steers, registers one drag and one zoom
//! handler id with a registry on attach, and answers dispatched events
//! under those ids.  It deregisters its ids on detach; a module that is
//! discarded without detaching leaves dead ids behind, which later
//! triggers simply invoke to no effect.

use vstd::prelude::*;
use crate::fx::{
    Fx, FX_ONE, div_floor_i128, fmul_v, isqrt_u128, lemma_i64_mul_fits, lemma_isqrt_bounds, sat64,
    spec_isqrt,
};
use crate::map::{clamp_tilt, MapPosition};
use crate::trig::{acos_fx, acos_of};
use crate::event::{
    DragEvent, EventHandler, EventKind, EventState, HandlerStore, MapEvent, MouseButton,
    ZoomEvent,
};
use crate::control::PixelPoint;

verus! {

/// Tilt radians per dragged pixel for the middle button, 0.005 in 2^-32
/// units (rounded down).
pub const TILT_PER_PIXEL: i64 = 21474836;

/// A signed 64-bit value with the minimum pulled up by one, so that exact
/// negation and products of two such values summed pairwise stay
/// representable in 128 bits.
pub open spec fn sym64(v: int) -> int {
    if v < -0x7FFF_FFFF_FFFF_FFFF {
        -0x7FFF_FFFF_FFFF_FFFF
    } else {
        v
    }
}

/// A wide quotient held back to 2^80 units, so that rescaling it by 2^32
/// stays far inside the 128-bit range.
pub open spec fn clamp_wide(v: int) -> int {
    if v > 0x1_0000_0000_0000_0000_0000 {
        0x1_0000_0000_0000_0000_0000
    } else if v < -0x1_0000_0000_0000_0000_0000 {
        -0x1_0000_0000_0000_0000_0000
    } else {
        v
    }
}

/// The yaw delta a right-button drag produces, if any: the angle between
/// the vector from the cursor's world point to the view center and that
/// vector moved by the drag delta in world units, negated when the turn is
/// clockwise.  A zero-length vector, or a cosine pushed past one by
/// rounding, is degenerate and produces no turn; a cosine pushed below
/// minus one by rounding is taken as minus one.
pub open spec fn spec_right_drag_angle(
    map: MapPosition,
    dx: int,
    dy: int,
    cursor: PixelPoint,
) -> Option<int> {
    let t = map.spec_translate();
    let p = map.spec_map_position(cursor);
    let v1x = sym64(sat64(sat64(-t.0) - p.0));
    let v1y = sym64(sat64(sat64(-t.1) - p.1));
    let wdx = fmul_v(dx * FX_ONE, map.spec_resolution());
    let wdy = fmul_v(dy * FX_ONE, map.spec_resolution());
    let v2x = sym64(sat64(v1x + wdx));
    let v2y = sym64(sat64(v1y + wdy));
    let l1 = spec_isqrt((v1x * v1x + v1y * v1y) as nat) as int;
    let l2 = spec_isqrt((v2x * v2x + v2y * v2y) as nat) as int;
    if l1 == 0 || l2 == 0 {
        None
    } else {
        let dot = v1x * v2x + v1y * v2y;
        let prod = (clamp_wide(dot / l1) * FX_ONE) / l2;
        if prod > FX_ONE {
            None
        } else {
            let a = acos_of(
                if prod < -(FX_ONE as int) {
                    -(FX_ONE as int)
                } else {
                    prod
                },
            );
            if v1x * v2y > v1y * v2x {
                Some(sat64(-a))
            } else {
                Some(sat64(a))
            }
        }
    }
}

/// Applies a zoom event: the viewport zooms by the event's factor at the
/// event's cursor; a non-positive factor is degenerate and ignored.  The
/// event is always consumed.
pub fn handle_zoom(e: ZoomEvent, map: &mut MapPosition) -> (r: EventState)
    ensures
        r == EventState::Final,
        e.delta.v() > 0 ==> final(map).spec_translate() == old(map).spec_zoomed_translate(
            e.delta.v(),
            e.cursor_position,
        ) && final(map).spec_resolution() == old(map).spec_zoomed_resolution(e.delta.v()),
        e.delta.v() <= 0 ==> final(map).spec_translate() == old(map).spec_translate(),
        e.delta.v() <= 0 ==> final(map).spec_resolution() == old(map).spec_resolution(),
        final(map).spec_rotation_x() == old(map).spec_rotation_x(),
        final(map).spec_rotation_z() == old(map).spec_rotation_z(),
        final(map).spec_width() == old(map).spec_width(),
        final(map).spec_height() == old(map).spec_height(),
{
    if e.delta.bits > 0 {
        map.zoom(e.delta, e.cursor_position);
    }
    EventState::Final
}

/// A left-button drag pans the view by the dragged pixels.
pub fn handle_left_button_drag(dx: i32, dy: i32, map: &mut MapPosition) -> (r: EventState)
    ensures
        r == EventState::Final,
        ({
            let d = old(map).spec_translate_px_delta(dx as int, dy as int);
            let t = old(map).spec_translate();
            final(map).spec_translate() == (sat64(t.0 + d.0), sat64(t.1 + d.1), sat64(t.2 + d.2))
        }),
        final(map).spec_resolution() == old(map).spec_resolution(),
        final(map).spec_rotation_x() == old(map).spec_rotation_x(),
        final(map).spec_rotation_z() == old(map).spec_rotation_z(),
        final(map).spec_width() == old(map).spec_width(),
        final(map).spec_height() == old(map).spec_height(),
{
    map.translate_px(dx, dy);
    EventState::Final
}

/// A middle-button drag tilts the camera: each dragged pixel adds a fixed
/// angle step, and the viewport clamps the result.
pub fn handle_middle_button_drag(dy: i32, map: &mut MapPosition) -> (r: EventState)
    ensures
        r == EventState::Final,
        final(map).spec_rotation_x() == clamp_tilt(
            sat64(old(map).spec_rotation_x() + fmul_v(dy as int * FX_ONE, TILT_PER_PIXEL as int)),
        ),
        final(map).spec_rotation_z() == old(map).spec_rotation_z(),
        final(map).spec_translate() == old(map).spec_translate(),
        final(map).spec_resolution() == old(map).spec_resolution(),
        final(map).spec_width() == old(map).spec_width(),
        final(map).spec_height() == old(map).spec_height(),
{
    let step = Fx::from_int(dy).times(Fx::from_bits(TILT_PER_PIXEL));
    map.rotate(step, Fx::zero());
    EventState::Final
}

/// A right-button drag yaws the view: the turn of the cursor's world point
/// around the view center implied by the drag ([`spec_right_drag_angle`])
/// is added to the yaw; degenerate geometry is a no-op.
pub fn handle_right_button_drag(
    dx: i32,
    dy: i32,
    map: &mut MapPosition,
    cursor_position: PixelPoint,
) -> (r: EventState)
    ensures
        r == EventState::Final,
        ({
            match spec_right_drag_angle(*old(map), dx as int, dy as int, cursor_position) {
                Some(a) => final(map).spec_rotation_z() == sat64(old(map).spec_rotation_z() + a),
                None => final(map).spec_rotation_z() == old(map).spec_rotation_z(),
            }
        }),
        final(map).spec_rotation_x() == old(map).spec_rotation_x(),
        final(map).spec_translate() == old(map).spec_translate(),
        final(map).spec_resolution() == old(map).spec_resolution(),
        final(map).spec_width() == old(map).spec_width(),
        final(map).spec_height() == old(map).spec_height(),
{
    let center = map.center();
    let position_on_map = map.get_map_position(&cursor_position);
    let v1x = sym_bits(center.x.minus(position_on_map.x).to_bits());
    let v1y = sym_bits(center.y.minus(position_on_map.y).to_bits());
    let wdx = Fx::from_int(dx).times(map.resolution());
    let wdy = Fx::from_int(dy).times(map.resolution());
    let v2x = sym_bits(Fx::from_bits(v1x).plus(wdx).to_bits());
    let v2y = sym_bits(Fx::from_bits(v1y).plus(wdy).to_bits());
    proof {
        lemma_i64_mul_fits(v1x as int, v1x as int);
        lemma_i64_mul_fits(v1y as int, v1y as int);
        lemma_i64_mul_fits(v2x as int, v2x as int);
        lemma_i64_mul_fits(v2y as int, v2y as int);
        lemma_i64_mul_fits(v1x as int, v2x as int);
        lemma_i64_mul_fits(v1y as int, v2y as int);
        lemma_i64_mul_fits(v1x as int, v2y as int);
        lemma_i64_mul_fits(v1y as int, v2x as int);
    }
    proof {
        assert({
            let q1 = (v1x as int) * (v1x as int) + (v1y as int) * (v1y as int);
            let q2 = (v2x as int) * (v2x as int) + (v2y as int) * (v2y as int);
            0 <= q1 <= 0x7FFF_FFFF_FFFF_FFFE_0000_0000_0000_0002 && 0 <= q2
                <= 0x7FFF_FFFF_FFFF_FFFE_0000_0000_0000_0002
        }) by (nonlinear_arith)
            requires
                -0x7FFF_FFFF_FFFF_FFFF <= v1x as int <= 0x7FFF_FFFF_FFFF_FFFF,
                -0x7FFF_FFFF_FFFF_FFFF <= v1y as int <= 0x7FFF_FFFF_FFFF_FFFF,
                -0x7FFF_FFFF_FFFF_FFFF <= v2x as int <= 0x7FFF_FFFF_FFFF_FFFF,
                -0x7FFF_FFFF_FFFF_FFFF <= v2y as int <= 0x7FFF_FFFF_FFFF_FFFF,
        ;
    }
    let s1: u128 = square_u128(v1x) + square_u128(v1y);
    let s2: u128 = square_u128(v2x) + square_u128(v2y);
    let l1 = isqrt_u128(s1);
    let l2 = isqrt_u128(s2);
    if l1 == 0 || l2 == 0 {
        return EventState::Final;
    }
    proof {
        lemma_isqrt_bounds(s1 as nat);
        lemma_isqrt_bounds(s2 as nat);
        assert(l1 as int <= s1 as int && l2 as int <= s2 as int) by (nonlinear_arith)
            requires
                1 <= l1,
                1 <= l2,
                l1 * l1 <= s1,
                l2 * l2 <= s2,
        ;
    }
    proof {
        assert({
            let d = (v1x as int) * (v2x as int) + (v1y as int) * (v2y as int);
            -0x7FFF_FFFF_FFFF_FFFE_0000_0000_0000_0002 <= d
                <= 0x7FFF_FFFF_FFFF_FFFE_0000_0000_0000_0002
        }) by (nonlinear_arith)
            requires
                -0x7FFF_FFFF_FFFF_FFFF <= v1x as int <= 0x7FFF_FFFF_FFFF_FFFF,
                -0x7FFF_FFFF_FFFF_FFFF <= v1y as int <= 0x7FFF_FFFF_FFFF_FFFF,
                -0x7FFF_FFFF_FFFF_FFFF <= v2x as int <= 0x7FFF_FFFF_FFFF_FFFF,
                -0x7FFF_FFFF_FFFF_FFFF <= v2y as int <= 0x7FFF_FFFF_FFFF_FFFF,
        ;
    }
    let dot: i128 = (v1x as i128) * (v2x as i128) + (v1y as i128) * (v2y as i128);
    let step = div_floor_i128(dot, l1 as i128);
    let step_c: i128 = if step > 0x1_0000_0000_0000_0000_0000i128 {
        0x1_0000_0000_0000_0000_0000i128
    } else if step < -0x1_0000_0000_0000_0000_0000i128 {
        -0x1_0000_0000_0000_0000_0000i128
    } else {
        step
    };
    let prod = div_floor_i128(step_c * (FX_ONE as i128), l2 as i128);
    if prod > FX_ONE as i128 {
        return EventState::Final;
    }
    let arg: i64 = if prod < -(FX_ONE as i128) {
        -FX_ONE
    } else {
        prod as i64
    };
    let angle = acos_fx(arg);
    let cross_pos = (v1x as i128) * (v2y as i128) > (v1y as i128) * (v2x as i128);
    let turn = if cross_pos {
        Fx::from_bits(angle).neg()
    } else {
        Fx::from_bits(angle)
    };
    map.rotate(Fx::zero(), turn);
    EventState::Final
}

/// The exact square of a symmetric 64-bit value, as an unsigned wide
/// intermediate.
fn square_u128(v: i64) -> (r: u128)
    requires
        v > i64::MIN,
    ensures
        r as int == v as int * v as int,
{
    proof {
        lemma_i64_mul_fits(v as int, v as int);
        assert(v as int * v as int >= 0) by (nonlinear_arith);
    }
    let a: u128 = if v >= 0 {
        v as u128
    } else {
        (-v) as u128
    };
    proof {
        assert((a * a) as int == v as int * v as int) by (nonlinear_arith)
            requires
                a as int == if v as int >= 0 {
                    v as int
                } else {
                    -(v as int)
                },
                a < 0x1_0000_0000_0000_0000u128,
        ;
    }
    a * a
}

/// Pulls the minimum 64-bit value up by one, keeping negation exact.
fn sym_bits(v: i64) -> (r: i64)
    ensures
        r as int == sym64(v as int),
        r > i64::MIN,
{
    if v == i64::MIN {
        i64::MIN + 1
    } else {
        v
    }
}

/// A drag event routed to the held button's behavior: the left button
/// pans, the right yaws, the middle tilts; an untracked button leaves the
/// event to later handlers.
pub fn handle_drag(e: DragEvent, map: &mut MapPosition) -> (r: EventState)
    ensures
        ({
            match e.button {
                MouseButton::Left => r == EventState::Final && final(map).spec_translate() == ({
                    let d = old(map).spec_translate_px_delta(e.dx as int, e.dy as int);
                    let t = old(map).spec_translate();
                    (sat64(t.0 + d.0), sat64(t.1 + d.1), sat64(t.2 + d.2))
                }),
                MouseButton::Right => r == EventState::Final && (match spec_right_drag_angle(
                    *old(map),
                    e.dx as int,
                    e.dy as int,
                    e.curr_cursor_position,
                ) {
                    Some(a) => final(map).spec_rotation_z() == sat64(
                        old(map).spec_rotation_z() + a,
                    ),
                    None => final(map).spec_rotation_z() == old(map).spec_rotation_z(),
                }),
                MouseButton::Middle => r == EventState::Final && final(map).spec_rotation_x()
                    == clamp_tilt(
                    sat64(
                        old(map).spec_rotation_x() + fmul_v(
                            e.dy as int * FX_ONE,
                            TILT_PER_PIXEL as int,
                        ),
                    ),
                ),
                MouseButton::Other(_) => r == EventState::Continue && final(map).spec_translate()
                    == old(map).spec_translate() && final(map).spec_rotation_z() == old(map).spec_rotation_z()
                    && final(map).spec_rotation_x() == old(map).spec_rotation_x(),
            }
        }),
        final(map).spec_resolution() == old(map).spec_resolution(),
        final(map).spec_width() == old(map).spec_width(),
        final(map).spec_height() == old(map).spec_height(),
{
    match e.button {
        MouseButton::Left => handle_left_button_drag(e.dx, e.dy, map),
        MouseButton::Right => handle_right_button_drag(e.dx, e.dy, map, e.curr_cursor_position),
        MouseButton::Middle => handle_middle_button_drag(e.dy, map),
        MouseButton::Other(_) => EventState::Continue,
    }
}

/// The default navigation module: owns the viewport it steers and the two
/// handler ids it registered.
pub struct DefaultMapControl {
    pub position: MapPosition,
    attached: bool,
    drag_handler: usize,
    zoom_handler: usize,
}

impl DefaultMapControl {
    /// Whether the module currently holds registered handler ids.
    pub closed spec fn spec_attached(self) -> bool {
        self.attached
    }

    /// The id its drag handler registered under.
    pub closed spec fn spec_drag_handler(self) -> usize {
        self.drag_handler
    }

    /// The id its zoom handler registered under.
    pub closed spec fn spec_zoom_handler(self) -> usize {
        self.zoom_handler
    }

    /// The viewport the module steers.
    pub closed spec fn spec_position(self) -> MapPosition {
        self.position
    }

    /// A detached module steering the given viewport.
    pub fn new(position: MapPosition) -> (r: Self)
        ensures
            !r.spec_attached(),
    {
        Self { position, attached: false, drag_handler: 0, zoom_handler: 0 }
    }

    /// Whether the module currently holds registered handler ids.
    pub fn is_attached(&self) -> (r: bool)
        ensures
            r == self.spec_attached(),
    {
        self.attached
    }

    /// Registers the module's drag and zoom handlers with the registry.
    pub fn attach(&mut self, store: &mut HandlerStore)
        requires
            old(store).wf(),
            old(store).next_id < usize::MAX - 1,
        ensures
            final(store).wf(),
            final(self).spec_attached(),
            final(self).spec_position() == old(self).spec_position(),
            final(store).spec_list(EventKind::Drag) == old(store).spec_list(EventKind::Drag).push(
                final(self).spec_drag_handler(),
            ),
            final(store).spec_list(EventKind::Zoom) == old(store).spec_list(EventKind::Zoom).push(
                final(self).spec_zoom_handler(),
            ),
            final(store).spec_list(EventKind::Click) == old(store).spec_list(EventKind::Click),
            final(store).spec_list(EventKind::DoubleClick) == old(store).spec_list(
                EventKind::DoubleClick,
            ),
    {
        self.drag_handler = store.on(EventKind::Drag);
        self.zoom_handler = store.on(EventKind::Zoom);
        self.attached = true;
    }

    /// Deregisters the module's handlers; detaching a detached module is a
    /// no-op.
    pub fn detach(&mut self, store: &mut HandlerStore)
        requires
            old(store).wf(),
        ensures
            final(store).wf(),
            !final(self).spec_attached(),
            final(self).spec_position() == old(self).spec_position(),
            !old(self).spec_attached() ==> *final(store) == *old(store),
            old(self).spec_attached() ==> !final(store).spec_list(EventKind::Drag).contains(
                old(self).spec_drag_handler(),
            ) && !final(store).spec_list(EventKind::Zoom).contains(
                old(self).spec_zoom_handler(),
            ),
    {
        if self.attached {
            store.off(EventKind::Drag, self.drag_handler);
            store.off(EventKind::Zoom, self.zoom_handler);
            self.drag_handler = 0;
            self.zoom_handler = 0;
            self.attached = false;
        }
    }
}

impl EventHandler for DefaultMapControl {
    /// Answers drag events under the drag id and zoom events under the
    /// zoom id; everything else passes through.  The registry is never
    /// touched here.
    fn handle(&mut self, store: &mut HandlerStore, handler_id: usize, event: &MapEvent) -> (r:
        EventState)
        ensures
            *final(store) == *old(store),
    {
        if self.attached && handler_id == self.drag_handler {
            if let MapEvent::Drag(e) = event {
                return handle_drag(*e, &mut self.position);
            }
        }
        if self.attached && handler_id == self.zoom_handler {
            if let MapEvent::Zoom(e) = event {
                return handle_zoom(*e, &mut self.position);
            }
        }
        EventState::Continue
    }
}

} // verus!
