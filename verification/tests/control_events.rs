//! Input classification and event routing.

use map_core::control::{ZOOM_IN_STEP, ZOOM_OUT_STEP};
use map_core::{
    ControlState, ElementState, EventHandler, EventKind, EventState, Fx, HandlerStore, InputEvent,
    MapControlSettings, MapEvent, MapEventDispatcher, MouseButton, PixelPoint, ScrollDelta,
    displacement, trigger_event, wheel_factor,
};

struct NullHandler;

impl EventHandler for NullHandler {
    fn handle(&mut self, _store: &mut HandlerStore, _id: usize, _event: &MapEvent) -> EventState {
        EventState::Continue
    }
}

struct Recorder {
    final_id: usize,
    log: Vec<usize>,
}

impl EventHandler for Recorder {
    fn handle(&mut self, _store: &mut HandlerStore, id: usize, _event: &MapEvent) -> EventState {
        self.log.push(id);
        if id == self.final_id {
            EventState::Final
        } else {
            EventState::Continue
        }
    }
}

fn dispatcher() -> MapEventDispatcher {
    MapEventDispatcher::new(MapControlSettings::default())
}

fn feed(
    d: &MapEventDispatcher,
    state: &mut ControlState,
    store: &mut HandlerStore,
    event: InputEvent,
    now_ms: u64,
) -> Option<MapEvent> {
    let mut h = NullHandler;
    d.handle_event(state, store, &mut h, &event, now_ms)
}

fn press(button: MouseButton) -> InputEvent {
    InputEvent::MouseInput { button, state: ElementState::Pressed }
}

fn release(button: MouseButton) -> InputEvent {
    InputEvent::MouseInput { button, state: ElementState::Released }
}

fn moved(x: i32, y: i32) -> InputEvent {
    InputEvent::CursorMoved { x, y }
}

#[test]
fn manhattan_displacement() {
    assert_eq!(3, displacement(PixelPoint { x: 10, y: 10 }, PixelPoint { x: 12, y: 11 }));
    assert_eq!(4, displacement(PixelPoint { x: 10, y: 10 }, PixelPoint { x: 14, y: 10 }));
    assert_eq!(0, displacement(PixelPoint { x: -5, y: 7 }, PixelPoint { x: -5, y: 7 }));
}

#[test]
fn click_fires_within_threshold() {
    let d = dispatcher();
    let mut state = ControlState::default();
    let mut store = HandlerStore::new();

    feed(&d, &mut state, &mut store, moved(10, 10), 0);
    feed(&d, &mut state, &mut store, press(MouseButton::Left), 0);
    feed(&d, &mut state, &mut store, moved(12, 11), 0);
    let emitted = feed(&d, &mut state, &mut store, release(MouseButton::Left), 0);
    match emitted {
        Some(MapEvent::Click(e)) => {
            assert_eq!(PixelPoint { x: 12, y: 11 }, e.cursor_position);
            assert_eq!(MouseButton::Left, e.button);
        },
        other => panic!("expected a click, got {:?}", other),
    }
}

#[test]
fn no_click_past_threshold() {
    let d = dispatcher();
    let mut state = ControlState::default();
    let mut store = HandlerStore::new();

    feed(&d, &mut state, &mut store, moved(10, 10), 0);
    feed(&d, &mut state, &mut store, press(MouseButton::Left), 0);
    feed(&d, &mut state, &mut store, moved(14, 10), 0);
    let emitted = feed(&d, &mut state, &mut store, release(MouseButton::Left), 0);
    assert!(emitted.is_none());
}

#[test]
fn drag_priority_left_over_right_over_middle() {
    let d = dispatcher();
    let mut state = ControlState::default();
    let mut store = HandlerStore::new();

    feed(&d, &mut state, &mut store, moved(0, 0), 0);
    feed(&d, &mut state, &mut store, press(MouseButton::Right), 0);
    feed(&d, &mut state, &mut store, press(MouseButton::Left), 0);
    let emitted = feed(&d, &mut state, &mut store, moved(5, -3), 0);
    match emitted {
        Some(MapEvent::Drag(e)) => {
            assert_eq!(MouseButton::Left, e.button);
            assert_eq!(5, e.dx);
            assert_eq!(3, e.dy);
            assert_eq!(PixelPoint { x: 5, y: -3 }, e.curr_cursor_position);
        },
        other => panic!("expected a drag, got {:?}", other),
    }

    feed(&d, &mut state, &mut store, release(MouseButton::Left), 0);
    let emitted = feed(&d, &mut state, &mut store, moved(6, -3), 0);
    match emitted {
        Some(MapEvent::Drag(e)) => assert_eq!(MouseButton::Right, e.button),
        other => panic!("expected a drag, got {:?}", other),
    }
}

#[test]
fn no_drag_without_buttons() {
    let d = dispatcher();
    let mut state = ControlState::default();
    let mut store = HandlerStore::new();
    assert!(feed(&d, &mut state, &mut store, moved(5, 5), 0).is_none());
}

#[test]
fn wheel_debounce_suppresses_second_event() {
    let d = dispatcher();
    let mut state = ControlState::default();
    let mut store = HandlerStore::new();

    let wheel = InputEvent::MouseWheel { delta: ScrollDelta::LineDelta(1000) };
    let first = feed(&d, &mut state, &mut store, wheel, 1000);
    assert!(matches!(first, Some(MapEvent::Zoom(_))));
    assert_eq!(1000, state.last_zoom_time);

    let second = feed(&d, &mut state, &mut store, wheel, 1010);
    assert!(second.is_none());
    assert_eq!(1000, state.last_zoom_time);

    let third = feed(&d, &mut state, &mut store, wheel, 1050);
    assert!(matches!(third, Some(MapEvent::Zoom(_))));
    assert_eq!(1050, state.last_zoom_time);
}

#[test]
fn wheel_zero_delta_is_ignored() {
    let d = dispatcher();
    let mut state = ControlState::default();
    let mut store = HandlerStore::new();
    let wheel = InputEvent::MouseWheel { delta: ScrollDelta::LineDelta(0) };
    assert!(feed(&d, &mut state, &mut store, wheel, 1000).is_none());
    assert_eq!(0, state.last_zoom_time);
}

#[test]
fn wheel_factor_is_base_to_the_speed() {
    let wheel_in = InputEvent::MouseWheel { delta: ScrollDelta::LineDelta(1000) };
    let wheel_out = InputEvent::MouseWheel { delta: ScrollDelta::PixelDelta(-2500) };
    let d = dispatcher();
    let mut state = ControlState::default();
    let mut store = HandlerStore::new();

    match feed(&d, &mut state, &mut store, wheel_in, 1000) {
        Some(MapEvent::Zoom(e)) => {
            assert_eq!(5196910426, e.delta.bits);
            assert_eq!(wheel_factor(Fx::from_bits(ZOOM_IN_STEP), 2), e.delta);
        },
        other => panic!("expected a zoom, got {:?}", other),
    }
    match feed(&d, &mut state, &mut store, wheel_out, 2000) {
        Some(MapEvent::Zoom(e)) => {
            assert_eq!(3549559747, e.delta.bits);
            assert_eq!(wheel_factor(Fx::from_bits(ZOOM_OUT_STEP), 2), e.delta);
        },
        other => panic!("expected a zoom, got {:?}", other),
    }
}

#[test]
fn dispatch_short_circuits_at_final() {
    let mut store = HandlerStore::new();
    let a = store.on(EventKind::Click);
    let b = store.on(EventKind::Click);
    let c = store.on(EventKind::Click);
    let mut rec = Recorder { final_id: b, log: Vec::new() };

    let ev = MapEvent::Click(map_core::ClickEvent {
        cursor_position: PixelPoint { x: 0, y: 0 },
        button: MouseButton::Left,
    });
    let invoked = trigger_event(&mut store, &mut rec, &ev);

    assert_eq!(vec![(a, EventState::Continue), (b, EventState::Final)], invoked);
    assert_eq!(vec![a, b], rec.log);
    assert!(!rec.log.contains(&c));
    assert_eq!(3, store.get_store(EventKind::Click).len());
}

#[test]
fn handler_ids_are_monotonic_and_never_reused() {
    let mut store = HandlerStore::new();
    let a = store.on(EventKind::Drag);
    let b = store.on(EventKind::Zoom);
    let c = store.on(EventKind::Drag);
    assert_eq!(1, a);
    assert_eq!(2, b);
    assert_eq!(3, c);

    store.off(EventKind::Drag, a);
    assert_eq!(vec![c], store.get_store(EventKind::Drag));

    store.off(EventKind::Drag, 999);
    assert_eq!(vec![c], store.get_store(EventKind::Drag));

    let d = store.on(EventKind::Drag);
    assert_eq!(4, d);
    assert_eq!(vec![c, d], store.get_store(EventKind::Drag));
}

#[test]
fn double_click_registration_round_trip() {
    let mut store = HandlerStore::new();
    let id = store.on(EventKind::DoubleClick);
    assert_eq!(vec![id], store.get_store(EventKind::DoubleClick));
    store.off(EventKind::DoubleClick, id);
    assert!(store.get_store(EventKind::DoubleClick).is_empty());
}

#[test]
fn handler_may_register_during_dispatch() {
    struct SelfRegistering {
        added: Vec<usize>,
    }

    impl EventHandler for SelfRegistering {
        fn handle(
            &mut self,
            store: &mut HandlerStore,
            _id: usize,
            _event: &MapEvent,
        ) -> EventState {
            self.added.push(store.on(EventKind::Drag));
            EventState::Continue
        }
    }

    let mut store = HandlerStore::new();
    let a = store.on(EventKind::Drag);
    let b = store.on(EventKind::Drag);
    let mut h = SelfRegistering { added: Vec::new() };
    let ev = MapEvent::Drag(map_core::DragEvent {
        dx: 0,
        dy: 0,
        button: MouseButton::Left,
        curr_cursor_position: PixelPoint { x: 0, y: 0 },
    });

    let invoked = trigger_event(&mut store, &mut h, &ev);
    assert_eq!(vec![(a, EventState::Continue), (b, EventState::Continue)], invoked);
    assert_eq!(4, store.get_store(EventKind::Drag).len());
}
