//! Core of an interactive 2D/3D map viewer: a viewport transform over a
//! planar coordinate space, a tracker that turns raw pointer input into
//! semantic navigation events, an ordered callback registry with
//! short-circuiting dispatch, and a tile-addressing scheme that maps a
//! visible bounding box and resolution to the discrete tiles covering it.
//!
//! All coordinates, resolutions and angles are fixed-point numbers ([`Fx`]),
//! so every computation has an exact arithmetic meaning that the contracts
//! state; trigonometric values come from an external CORDIC implementation
//! behind a small trusted boundary.

pub mod control;
pub mod default_control;
pub mod event;
pub mod fx;
pub mod gl;
pub mod map;
pub mod tile_layer;
pub mod tile_scheme;
pub mod trig;

pub use control::{
    ControlState, ElementState, InputEvent, MapControlSettings, MapEventDispatcher, MouseState,
    PixelPoint, ScrollDelta, displacement, wheel_factor,
};
pub use event::{
    ClickEvent, DoubleClickEvent, DragEvent, EventHandler, EventKind, EventState, HandlerStore,
    MapEvent, MouseButton, ZoomEvent, trigger_event,
};
pub use default_control::{
    DefaultMapControl, handle_drag, handle_left_button_drag, handle_middle_button_drag,
    handle_right_button_drag, handle_zoom,
};
pub use fx::Fx;
pub use gl::{AttributeValueType, Vertex, VertexAttribute};
pub use map::{Envelope, MapPosition, Point};
pub use tile_layer::{TileIndex, TileLayer, TileStore};
pub use tile_scheme::{TileLevel, TileSchema, TilesDirection};
